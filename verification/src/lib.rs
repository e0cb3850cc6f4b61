//! Byte-exact layout descriptions for native composite values.
//!
//! The crate models, independently of any compiler, how integers, floats,
//! booleans, enumerations, records, arrays and strings are laid out in
//! memory, so that a byte buffer can be handed across a foreign boundary
//! together with a structural description, and so that bytes arriving from
//! that boundary can be safely reinterpreted back into typed values.

pub mod array;
pub mod config;
pub mod dyn_value;
pub mod h5type;
pub mod string;

pub use array::VarLenArray;
pub use config::emit_cfg_flags;
pub use config::require_version;
pub use config::CapabilityFlags;
pub use config::ConfigError;
pub use config::Version;
pub use dyn_value::DynValue;
pub use dyn_value::OwnedDynValue;
pub use dyn_value::TypeMismatch;
pub use h5type::CompoundField;
pub use h5type::CompoundType;
pub use h5type::EnumMember;
pub use h5type::EnumType;
pub use h5type::FloatSize;
pub use h5type::H5Type;
pub use h5type::IntSize;
pub use h5type::LayoutError;
pub use h5type::TypeDescriptor;
pub use string::FixedAscii;
pub use string::FixedUnicode;
pub use string::StringError;
pub use string::VarLenAscii;
pub use string::VarLenUnicode;

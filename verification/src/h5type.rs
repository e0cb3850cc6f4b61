//! The descriptor model: the closed set of structural shapes a value can
//! have, each with a byte size and an alignment, plus the byte-compatibility
//! check that guards every reinterpretation of raw bytes as a typed value.
//!
//! Descriptors are immutable once built and are compared structurally,
//! never by identity.

use vstd::prelude::*;

verus! {

use vstd::arithmetic::div_mod::{
    lemma_fundamental_div_mod,
    lemma_mod_bound,
    lemma_mod_multiples_basic,
};

/// Platform maximum alignment: no descriptor is aligned more strictly than
/// this many bytes.
pub const MAX_ALIGN: usize = 8;

/// Width in bytes of a backing integer.
#[derive(Clone, Copy, Debug, PartialEq, Eq, Structural)]
pub enum IntSize {
    U1,
    U2,
    U4,
    U8,
}

impl IntSize {
    /// The width in bytes, as a mathematical number.
    pub open spec fn spec_size(self) -> nat {
        match self {
            IntSize::U1 => 1,
            IntSize::U2 => 2,
            IntSize::U4 => 4,
            IntSize::U8 => 8,
        }
    }

    /// The width in bytes.
    pub fn size(self) -> (r: usize)
        ensures
            r == self.spec_size(),
    {
        match self {
            IntSize::U1 => 1,
            IntSize::U2 => 2,
            IntSize::U4 => 4,
            IntSize::U8 => 8,
        }
    }
}

/// Width in bytes of a floating-point number.
#[derive(Clone, Copy, Debug, PartialEq, Eq, Structural)]
pub enum FloatSize {
    U4,
    U8,
}

impl FloatSize {
    /// The width in bytes, as a mathematical number.
    pub open spec fn spec_size(self) -> nat {
        match self {
            FloatSize::U4 => 4,
            FloatSize::U8 => 8,
        }
    }

    /// The width in bytes.
    pub fn size(self) -> (r: usize)
        ensures
            r == self.spec_size(),
    {
        match self {
            FloatSize::U4 => 4,
            FloatSize::U8 => 8,
        }
    }
}

/// A named integer constant of an enumeration.
#[derive(Debug)]
#[verifier::ext_equal]
pub struct EnumMember {
    pub name: String,
    pub value: i64,
}

/// An enumeration: a backing integer width and signedness plus an ordered
/// member list.  Valid values have unique names, unique raw values, and
/// every raw value representable in the backing width.
#[derive(Debug)]
#[verifier::ext_equal]
pub struct EnumType {
    pub size: IntSize,
    pub signed: bool,
    pub members: Vec<EnumMember>,
}

/// One field of a compound: a name, an element descriptor, and the byte
/// offset the layout algorithm assigned to it.
#[derive(Debug)]
#[verifier::ext_equal]
pub struct CompoundField {
    pub name: String,
    pub ty: TypeDescriptor,
    pub offset: usize,
}

/// A record-like aggregate of named fields at fixed offsets, with its
/// derived total byte size and alignment.
#[derive(Debug)]
#[verifier::ext_equal]
pub struct CompoundType {
    pub fields: Vec<CompoundField>,
    pub size: usize,
    pub align: usize,
}

/// The canonical, recursive structural description of a value's shape.
#[derive(Debug)]
#[verifier::ext_equal]
pub enum TypeDescriptor {
    /// Signed integer of the given byte width.
    Integer(IntSize),
    /// Unsigned integer of the given byte width.
    Unsigned(IntSize),
    /// Floating-point number of the given byte width.
    Float(FloatSize),
    /// One-byte boolean.
    Boolean,
    /// Enumeration over a backing integer.
    Enum(EnumType),
    /// Record of named fields at fixed offsets.
    Compound(CompoundType),
    /// Fixed-length embedded array: element descriptor and element count.
    FixedArray(Box<TypeDescriptor>, usize),
    /// Variable-length array: element descriptor only; the backing storage
    /// is owned by the runtime collaborator, never by this crate.
    VarLenArray(Box<TypeDescriptor>),
    /// Fixed-capacity string of N bytes holding 7-bit ASCII content.
    FixedAscii(usize),
    /// Fixed-capacity string of N bytes holding UTF-8 content.
    FixedUnicode(usize),
    /// Variable-capacity ASCII string; storage owned by the runtime
    /// collaborator.
    VarLenAscii,
    /// Variable-capacity UTF-8 string; storage owned by the runtime
    /// collaborator.
    VarLenUnicode,
}

/// Byte size of the handle a variable-length array occupies inline:
/// an address plus an element count.
pub const VLEN_ARRAY_HANDLE_SIZE: usize = 16;

/// Byte size of the handle a variable-capacity string occupies inline:
/// an address.
pub const VLEN_STRING_HANDLE_SIZE: usize = 8;

/// The byte size a value of shape `td` occupies inline.  A compound and an
/// enumeration carry their derived size; a fixed array packs its elements
/// with no padding between them; variable-length shapes occupy only their
/// handle.
pub open spec fn spec_size(td: TypeDescriptor) -> nat
    decreases td,
{
    match td {
        TypeDescriptor::Integer(s) => s.spec_size(),
        TypeDescriptor::Unsigned(s) => s.spec_size(),
        TypeDescriptor::Float(s) => s.spec_size(),
        TypeDescriptor::Boolean => 1,
        TypeDescriptor::Enum(e) => e.size.spec_size(),
        TypeDescriptor::Compound(c) => c.size as nat,
        TypeDescriptor::FixedArray(e, n) => n as nat * spec_size(*e),
        TypeDescriptor::VarLenArray(_) => VLEN_ARRAY_HANDLE_SIZE as nat,
        TypeDescriptor::FixedAscii(n) => n as nat,
        TypeDescriptor::FixedUnicode(n) => n as nat,
        TypeDescriptor::VarLenAscii => VLEN_STRING_HANDLE_SIZE as nat,
        TypeDescriptor::VarLenUnicode => VLEN_STRING_HANDLE_SIZE as nat,
    }
}

/// The alignment a value of shape `td` requires.  A primitive's alignment
/// equals its own byte size (every primitive width lies within the platform
/// maximum); a compound carries its derived alignment; an array aligns as
/// its element does; a fixed string aligns as its bytes do; a
/// variable-length handle aligns as an address does.
pub open spec fn spec_align(td: TypeDescriptor) -> nat
    decreases td,
{
    match td {
        TypeDescriptor::Integer(s) => s.spec_size(),
        TypeDescriptor::Unsigned(s) => s.spec_size(),
        TypeDescriptor::Float(s) => s.spec_size(),
        TypeDescriptor::Boolean => 1,
        TypeDescriptor::Enum(e) => e.size.spec_size(),
        TypeDescriptor::Compound(c) => c.align as nat,
        TypeDescriptor::FixedArray(e, _) => spec_align(*e),
        TypeDescriptor::VarLenArray(_) => MAX_ALIGN as nat,
        TypeDescriptor::FixedAscii(_) => 1,
        TypeDescriptor::FixedUnicode(_) => 1,
        TypeDescriptor::VarLenAscii => MAX_ALIGN as nat,
        TypeDescriptor::VarLenUnicode => MAX_ALIGN as nat,
    }
}

/// Every byte size reachable inside `td` fits the machine: the inline size
/// of `td` itself and of every nested fixed-array element is representable
/// in `usize`.
pub open spec fn size_fits(td: TypeDescriptor) -> bool
    decreases td,
{
    &&& spec_size(td) <= usize::MAX
    &&& match td {
        TypeDescriptor::FixedArray(e, _) => size_fits(*e),
        _ => true,
    }
}

/// Structural equivalence of two enumerations: same backing width and
/// signedness, and the same members, by name and raw value, in the same
/// order.
pub open spec fn enum_equiv(a: EnumType, b: EnumType) -> bool {
    &&& a.size == b.size
    &&& a.signed == b.signed
    &&& a.members@.len() == b.members@.len()
    &&& forall|i: int|
        0 <= i < a.members@.len() ==> a.members@[i].name@ == b.members@[i].name@
            && a.members@[i].value == b.members@[i].value
}

/// One compound field matches another: same name (as characters), same
/// offset, and byte-compatible element descriptors.
pub open spec fn field_equiv(a: CompoundField, b: CompoundField) -> bool
    decreases a,
{
    &&& a.name@ == b.name@
    &&& a.offset == b.offset
    &&& td_equiv(a.ty, b.ty)
}

/// Byte compatibility of two compounds: identical derived size and
/// alignment, and pairwise matching fields, in order.
pub open spec fn compound_equiv(x: CompoundType, y: CompoundType) -> bool
    decreases x,
{
    &&& x.size == y.size
    &&& x.align == y.align
    &&& x.fields@.len() == y.fields@.len()
    &&& forall|i: int|
        0 <= i < x.fields@.len() ==> field_equiv(#[trigger] x.fields@[i], y.fields@[i])
}

/// Byte compatibility: two descriptors are guaranteed to produce identical
/// memory layout.  They must have the same variant kind and, recursively,
/// equivalent nested descriptors and identical byte sizes, offsets and
/// alignments.  Field and member names are compared as character sequences.
pub open spec fn td_equiv(a: TypeDescriptor, b: TypeDescriptor) -> bool
    decreases a,
{
    match (a, b) {
        (TypeDescriptor::Integer(x), TypeDescriptor::Integer(y)) => x == y,
        (TypeDescriptor::Unsigned(x), TypeDescriptor::Unsigned(y)) => x == y,
        (TypeDescriptor::Float(x), TypeDescriptor::Float(y)) => x == y,
        (TypeDescriptor::Boolean, TypeDescriptor::Boolean) => true,
        (TypeDescriptor::Enum(x), TypeDescriptor::Enum(y)) => enum_equiv(x, y),
        (TypeDescriptor::Compound(x), TypeDescriptor::Compound(y)) => compound_equiv(x, y),
        (TypeDescriptor::FixedArray(e1, n1), TypeDescriptor::FixedArray(e2, n2)) => n1 == n2
            && td_equiv(*e1, *e2),
        (TypeDescriptor::VarLenArray(e1), TypeDescriptor::VarLenArray(e2)) => td_equiv(*e1, *e2),
        (TypeDescriptor::FixedAscii(n1), TypeDescriptor::FixedAscii(n2)) => n1 == n2,
        (TypeDescriptor::FixedUnicode(n1), TypeDescriptor::FixedUnicode(n2)) => n1 == n2,
        (TypeDescriptor::VarLenAscii, TypeDescriptor::VarLenAscii) => true,
        (TypeDescriptor::VarLenUnicode, TypeDescriptor::VarLenUnicode) => true,
        _ => false,
    }
}

impl TypeDescriptor {
    /// The byte size a value of this shape occupies inline.
    pub fn byte_size(&self) -> (r: usize)
        requires
            size_fits(*self),
        ensures
            r == spec_size(*self),
        decreases *self,
    {
        match self {
            TypeDescriptor::Integer(s) => s.size(),
            TypeDescriptor::Unsigned(s) => s.size(),
            TypeDescriptor::Float(s) => s.size(),
            TypeDescriptor::Boolean => 1,
            TypeDescriptor::Enum(e) => e.size.size(),
            TypeDescriptor::Compound(c) => c.size,
            TypeDescriptor::FixedArray(e, n) => *n * e.byte_size(),
            TypeDescriptor::VarLenArray(_) => VLEN_ARRAY_HANDLE_SIZE,
            TypeDescriptor::FixedAscii(n) => *n,
            TypeDescriptor::FixedUnicode(n) => *n,
            TypeDescriptor::VarLenAscii => VLEN_STRING_HANDLE_SIZE,
            TypeDescriptor::VarLenUnicode => VLEN_STRING_HANDLE_SIZE,
        }
    }

    /// The alignment a value of this shape requires.
    pub fn byte_align(&self) -> (r: usize)
        ensures
            r == spec_align(*self),
        decreases *self,
    {
        match self {
            TypeDescriptor::Integer(s) => s.size(),
            TypeDescriptor::Unsigned(s) => s.size(),
            TypeDescriptor::Float(s) => s.size(),
            TypeDescriptor::Boolean => 1,
            TypeDescriptor::Enum(e) => e.size.size(),
            TypeDescriptor::Compound(c) => c.align,
            TypeDescriptor::FixedArray(e, _) => e.byte_align(),
            TypeDescriptor::VarLenArray(_) => MAX_ALIGN,
            TypeDescriptor::FixedAscii(_) => 1,
            TypeDescriptor::FixedUnicode(_) => 1,
            TypeDescriptor::VarLenAscii => MAX_ALIGN,
            TypeDescriptor::VarLenUnicode => MAX_ALIGN,
        }
    }

    /// Decides byte compatibility with `other`: true iff the two
    /// descriptors describe identical memory layouts.
    pub fn is_compatible_with(&self, other: &TypeDescriptor) -> (r: bool)
        ensures
            r == td_equiv(*self, *other),
        decreases *self,
    {
        match (self, other) {
            (TypeDescriptor::Integer(x), TypeDescriptor::Integer(y)) => x == y,
            (TypeDescriptor::Unsigned(x), TypeDescriptor::Unsigned(y)) => x == y,
            (TypeDescriptor::Float(x), TypeDescriptor::Float(y)) => x == y,
            (TypeDescriptor::Boolean, TypeDescriptor::Boolean) => true,
            (TypeDescriptor::Enum(x), TypeDescriptor::Enum(y)) => enums_compatible(x, y),
            (TypeDescriptor::Compound(x), TypeDescriptor::Compound(y)) => compounds_compatible(
                x,
                y,
            ),
            (TypeDescriptor::FixedArray(e1, n1), TypeDescriptor::FixedArray(e2, n2)) => *n1 == *n2
                && e1.is_compatible_with(e2),
            (TypeDescriptor::VarLenArray(e1), TypeDescriptor::VarLenArray(e2)) => e1
                .is_compatible_with(e2),
            (TypeDescriptor::FixedAscii(n1), TypeDescriptor::FixedAscii(n2)) => *n1 == *n2,
            (TypeDescriptor::FixedUnicode(n1), TypeDescriptor::FixedUnicode(n2)) => *n1 == *n2,
            (TypeDescriptor::VarLenAscii, TypeDescriptor::VarLenAscii) => true,
            (TypeDescriptor::VarLenUnicode, TypeDescriptor::VarLenUnicode) => true,
            _ => false,
        }
    }
}

/// Decides structural equivalence of two enumerations.
fn enums_compatible(a: &EnumType, b: &EnumType) -> (r: bool)
    ensures
        r == enum_equiv(*a, *b),
{
    if a.size != b.size || a.signed != b.signed || a.members.len() != b.members.len() {
        return false;
    }
    let n = a.members.len();
    let mut i: usize = 0;
    while i < n
        invariant
            n == a.members@.len() == b.members@.len(),
            a.size == b.size,
            a.signed == b.signed,
            0 <= i <= n,
            forall|j: int|
                0 <= j < i ==> a.members@[j].name@ == b.members@[j].name@ && a.members@[j].value
                    == b.members@[j].value,
        decreases n - i,
    {
        if a.members[i].name != b.members[i].name {
            return false;
        }
        if a.members[i].value != b.members[i].value {
            return false;
        }
        i = i + 1;
    }
    true
}

/// Decides byte compatibility of two compounds: identical derived size and
/// alignment, and pairwise identical field names, offsets and element
/// descriptors, in order.
fn compounds_compatible(a: &CompoundType, b: &CompoundType) -> (r: bool)
    ensures
        r == compound_equiv(*a, *b),
    decreases *a,
{
    if a.size != b.size || a.align != b.align || a.fields.len() != b.fields.len() {
        return false;
    }
    let n = a.fields.len();
    let mut i: usize = 0;
    while i < n
        invariant
            n == a.fields@.len() == b.fields@.len(),
            a.size == b.size,
            a.align == b.align,
            0 <= i <= n,
            forall|j: int| 0 <= j < i ==> field_equiv(#[trigger] a.fields@[j], b.fields@[j]),
        decreases n - i,
    {
        if a.fields[i].name != b.fields[i].name {
            return false;
        }
        if a.fields[i].offset != b.fields[i].offset {
            return false;
        }
        proof {
            assert(decreases_to!(*a => a.fields@[i as int].ty));
        }
        if !a.fields[i].ty.is_compatible_with(&b.fields[i].ty) {
            return false;
        }
        i = i + 1;
    }
    true
}

impl Clone for EnumMember {
    /// Deep copy: the copy equals the original.
    fn clone(&self) -> (res: Self)
        ensures
            res == *self,
    {
        let res = EnumMember { name: self.name.clone(), value: self.value };
        proof {
            assert(res =~= *self);
        }
        res
    }
}

impl Clone for EnumType {
    /// Deep copy: the copy carries the same width, signedness and members.
    fn clone(&self) -> (res: Self)
        ensures
            res.size == self.size,
            res.signed == self.signed,
            res.members@ == self.members@,
    {
        let mut members: Vec<EnumMember> = Vec::new();
        let n = self.members.len();
        let mut i: usize = 0;
        while i < n
            invariant
                n == self.members@.len(),
                0 <= i <= n,
                members@.len() == i,
                forall|j: int| 0 <= j < i ==> members@[j] == self.members@[j],
            decreases n - i,
        {
            members.push(self.members[i].clone());
            i = i + 1;
        }
        let res = EnumType { size: self.size, signed: self.signed, members };
        proof {
            assert(res.members@ =~= self.members@);
        }
        res
    }
}

impl Clone for CompoundField {
    /// Deep copy: the copy matches the original field.
    fn clone(&self) -> (res: Self)
        ensures
            field_equiv(res, *self),
        decreases *self,
    {
        CompoundField { name: self.name.clone(), ty: self.ty.clone(), offset: self.offset }
    }
}

impl Clone for CompoundType {
    /// Deep copy: the copy is byte-compatible with the original.
    fn clone(&self) -> (res: Self)
        ensures
            compound_equiv(res, *self),
        decreases *self,
    {
        let mut fields: Vec<CompoundField> = Vec::new();
        let n = self.fields.len();
        let mut i: usize = 0;
        while i < n
            invariant
                n == self.fields@.len(),
                0 <= i <= n,
                fields@.len() == i,
                forall|j: int| 0 <= j < i ==> field_equiv(#[trigger] fields@[j], self.fields@[j]),
            decreases n - i,
        {
            proof {
                assert(decreases_to!(*self => self.fields@[i as int]));
            }
            fields.push(self.fields[i].clone());
            i = i + 1;
        }
        CompoundType { fields, size: self.size, align: self.align }
    }
}

impl Clone for TypeDescriptor {
    /// Deep copy: the copy is byte-compatible with the original.
    fn clone(&self) -> (res: Self)
        ensures
            td_equiv(res, *self),
        decreases *self,
    {
        match self {
            TypeDescriptor::Integer(s) => TypeDescriptor::Integer(*s),
            TypeDescriptor::Unsigned(s) => TypeDescriptor::Unsigned(*s),
            TypeDescriptor::Float(s) => TypeDescriptor::Float(*s),
            TypeDescriptor::Boolean => TypeDescriptor::Boolean,
            TypeDescriptor::Enum(e) => TypeDescriptor::Enum(e.clone()),
            TypeDescriptor::Compound(c) => TypeDescriptor::Compound(c.clone()),
            TypeDescriptor::FixedArray(e, n) => TypeDescriptor::FixedArray(
                Box::new((**e).clone()),
                *n,
            ),
            TypeDescriptor::VarLenArray(e) => TypeDescriptor::VarLenArray(Box::new((**e).clone())),
            TypeDescriptor::FixedAscii(n) => TypeDescriptor::FixedAscii(*n),
            TypeDescriptor::FixedUnicode(n) => TypeDescriptor::FixedUnicode(*n),
            TypeDescriptor::VarLenAscii => TypeDescriptor::VarLenAscii,
            TypeDescriptor::VarLenUnicode => TypeDescriptor::VarLenUnicode,
        }
    }
}

/// A structural rule of a type definition was broken when a descriptor was
/// being constructed.  Never retried: the type definition itself must be
/// corrected.
#[derive(Clone, Copy, Debug, PartialEq, Eq, Structural)]
pub enum LayoutError {
    /// Two fields of one compound share a name.
    DuplicateFieldName,
    /// A compound was defined with no fields.
    EmptyCompound,
    /// Two members of one enumeration share a name.
    DuplicateEnumName,
    /// Two members of one enumeration share a raw value.
    DuplicateEnumValue,
    /// An enumeration member's raw value does not fit the backing width.
    EnumValueOverflow,
}

/// The smallest multiple of `a` at or after `x`, for positive `a`; `x`
/// itself when `a` is not positive.
pub open spec fn align_up(x: int, a: int) -> int {
    if a <= 0 {
        x
    } else if x % a == 0 {
        x
    } else {
        x + a - x % a
    }
}

/// Rounding up to an alignment never moves a position backwards.
pub proof fn lemma_align_up_ge(x: int, a: int)
    requires
        x >= 0,
    ensures
        align_up(x, a) >= x,
{
    if a >= 1 {
        lemma_mod_bound(x, a);
    }
}

/// Rounding up to a positive alignment lands on a multiple of it, within
/// one alignment of the start.
pub proof fn lemma_align_up(x: int, a: int)
    requires
        x >= 0,
        a >= 1,
    ensures
        x <= align_up(x, a) < x + a,
        align_up(x, a) % a == 0,
{
    lemma_mod_bound(x, a);
    if x % a != 0 {
        lemma_fundamental_div_mod(x, a);
        let q = x / a;
        assert(a * (q + 1) == a * q + a) by (nonlinear_arith);
        assert(align_up(x, a) == a * (q + 1));
        assert((q + 1) * a == a * (q + 1)) by (nonlinear_arith);
        lemma_mod_multiples_basic(q + 1, a);
    }
}

/// The element descriptors of a field sequence, in order.
pub open spec fn field_tys(fs: Seq<CompoundField>) -> Seq<TypeDescriptor> {
    fs.map_values(|f: CompoundField| f.ty)
}

/// The field names of a field sequence, in order, as character sequences.
pub open spec fn field_names(fs: Seq<CompoundField>) -> Seq<Seq<char>> {
    fs.map_values(|f: CompoundField| f.name@)
}

/// The element descriptors of a (name, descriptor) definition list.
pub open spec fn pair_tys(ps: Seq<(String, TypeDescriptor)>) -> Seq<TypeDescriptor> {
    ps.map_values(|p: (String, TypeDescriptor)| p.1)
}

/// The names of a (name, descriptor) definition list, as character
/// sequences.
pub open spec fn pair_names(ps: Seq<(String, TypeDescriptor)>) -> Seq<Seq<char>> {
    ps.map_values(|p: (String, TypeDescriptor)| p.0@)
}

/// No two entries of `names` are the same character sequence.
pub open spec fn names_unique(names: Seq<Seq<char>>) -> bool {
    forall|i: int, j: int| 0 <= i < j < names.len() ==> names[i] != names[j]
}

/// The layout cursor after the first `n` fields: each field in turn
/// advances the cursor to the next position satisfying its alignment and
/// then past its own byte size.
pub open spec fn layout_cursor(tys: Seq<TypeDescriptor>, n: int) -> int
    decreases n,
{
    if n <= 0 {
        0
    } else {
        align_up(layout_cursor(tys, n - 1), spec_align(tys[n - 1]) as int) + spec_size(
            tys[n - 1],
        ) as int
    }
}

/// The byte offset the layout algorithm assigns to field `i`.
pub open spec fn layout_offset(tys: Seq<TypeDescriptor>, i: int) -> int {
    align_up(layout_cursor(tys, i), spec_align(tys[i]) as int)
}

/// The strictest alignment among the first `n` fields, at least 1.
pub open spec fn layout_max_align(tys: Seq<TypeDescriptor>, n: int) -> int
    decreases n,
{
    if n <= 0 {
        1
    } else {
        let a = spec_align(tys[n - 1]) as int;
        let m = layout_max_align(tys, n - 1);
        if a > m {
            a
        } else {
            m
        }
    }
}

/// The total byte size of a compound over `tys`: the final cursor rounded
/// up to the compound's alignment (trailing padding).
pub open spec fn layout_size(tys: Seq<TypeDescriptor>) -> int {
    align_up(layout_cursor(tys, tys.len() as int), layout_max_align(tys, tys.len() as int))
}

/// A compound is well-formed when it has at least one field, its field
/// names are unique, and its offsets, alignment and total size are exactly
/// the ones the layout algorithm derives from its field descriptors.
pub open spec fn compound_wf(c: CompoundType) -> bool {
    let tys = field_tys(c.fields@);
    let n = c.fields@.len() as int;
    &&& n >= 1
    &&& names_unique(field_names(c.fields@))
    &&& forall|i: int| 0 <= i < n ==> (#[trigger] c.fields@[i]).offset == layout_offset(tys, i)
    &&& c.align == layout_max_align(tys, n)
    &&& c.size == layout_size(tys)
}

/// The strictest alignment is always positive.
proof fn lemma_layout_max_align_pos(tys: Seq<TypeDescriptor>, n: int)
    ensures
        layout_max_align(tys, n) >= 1,
    decreases n,
{
    if n > 0 {
        lemma_layout_max_align_pos(tys, n - 1);
    }
}

/// The layout cursor never goes negative.
proof fn lemma_cursor_nonneg(tys: Seq<TypeDescriptor>, n: int)
    ensures
        layout_cursor(tys, n) >= 0,
    decreases n,
{
    if n > 0 {
        lemma_cursor_nonneg(tys, n - 1);
        lemma_align_up_ge(layout_cursor(tys, n - 1), spec_align(tys[n - 1]) as int);
    }
}

/// The layout cursor never moves backwards.
proof fn lemma_cursor_monotone(tys: Seq<TypeDescriptor>, m: int, n: int)
    requires
        0 <= m <= n,
    ensures
        layout_cursor(tys, m) <= layout_cursor(tys, n),
    decreases n,
{
    if n > m {
        lemma_cursor_monotone(tys, m, n - 1);
        lemma_cursor_nonneg(tys, n - 1);
        lemma_align_up_ge(layout_cursor(tys, n - 1), spec_align(tys[n - 1]) as int);
    }
}

/// Advances a position to the next multiple of the alignment `a`.
fn align_up_usize(x: usize, a: usize) -> (r: usize)
    requires
        a >= 1,
        align_up(x as int, a as int) <= usize::MAX,
    ensures
        r as int == align_up(x as int, a as int),
{
    let rem = x % a;
    if rem == 0 {
        x
    } else {
        x + (a - rem)
    }
}

impl CompoundType {
    /// Computes the layout of a compound from an ordered (name, descriptor)
    /// definition list.  A running cursor starts at 0; each field is placed
    /// at the next cursor position satisfying its alignment, and the cursor
    /// then advances past the field's byte size.  The compound's alignment
    /// is the strictest field alignment, and the total size is the final
    /// cursor rounded up to that alignment (trailing padding).  Fails with
    /// `EmptyCompound` when the list is empty and with `DuplicateFieldName`
    /// when two fields share a name.
    pub fn build(defs: Vec<(String, TypeDescriptor)>) -> (r: Result<CompoundType, LayoutError>)
        requires
            forall|i: int|
                0 <= i < defs@.len() ==> size_fits((#[trigger] defs@[i]).1) && spec_align(
                    defs@[i].1,
                ) >= 1,
            layout_size(pair_tys(defs@)) <= usize::MAX,
        ensures
            match r {
                Ok(c) => {
                    &&& defs@.len() >= 1
                    &&& names_unique(pair_names(defs@))
                    &&& compound_wf(c)
                    &&& c.fields@.len() == defs@.len()
                    &&& forall|i: int|
                        0 <= i < defs@.len() ==> (#[trigger] c.fields@[i]).name@ == defs@[i].0@
                            && c.fields@[i].ty == defs@[i].1
                },
                Err(LayoutError::EmptyCompound) => defs@.len() == 0,
                Err(LayoutError::DuplicateFieldName) => defs@.len() >= 1 && !names_unique(
                    pair_names(defs@),
                ),
                Err(_) => false,
            },
    {
        if defs.len() == 0 {
            return Err(LayoutError::EmptyCompound);
        }
        let n = defs.len();
        let mut i: usize = 1;
        while i < n
            invariant
                n == defs@.len(),
                1 <= i <= n,
                forall|p: int, q: int|
                    0 <= p < q < i ==> pair_names(defs@)[p] != pair_names(defs@)[q],
            decreases n - i,
        {
            let mut j: usize = 0;
            while j < i
                invariant
                    n == defs@.len(),
                    0 <= j <= i < n,
                    forall|p: int, q: int|
                        0 <= p < q < i ==> pair_names(defs@)[p] != pair_names(defs@)[q],
                    forall|p: int| 0 <= p < j ==> pair_names(defs@)[p] != pair_names(defs@)[i as int],
                decreases i - j,
            {
                if defs[j].0 == defs[i].0 {
                    proof {
                        assert(pair_names(defs@)[j as int] == pair_names(defs@)[i as int]);
                        assert(!names_unique(pair_names(defs@)));
                    }
                    return Err(LayoutError::DuplicateFieldName);
                }
                j = j + 1;
            }
            i = i + 1;
        }
        proof {
            assert(names_unique(pair_names(defs@)));
        }
        let ghost orig = defs@;
        let ghost tys = pair_tys(orig);
        let mut rest = defs;
        let mut out: Vec<CompoundField> = Vec::new();
        let mut cursor: usize = 0;
        let mut maxal: usize = 1;
        while rest.len() > 0
            invariant
                out@.len() + rest@.len() == orig.len(),
                rest@ == orig.subrange(out@.len() as int, orig.len() as int),
                tys == pair_tys(orig),
                tys.len() == orig.len(),
                forall|k: int|
                    0 <= k < orig.len() ==> size_fits((#[trigger] orig[k]).1) && spec_align(
                        orig[k].1,
                    ) >= 1,
                layout_size(tys) <= usize::MAX,
                forall|k: int|
                    0 <= k < out@.len() ==> (#[trigger] out@[k]).name@ == orig[k].0@ && out@[k].ty
                        == orig[k].1 && out@[k].offset == layout_offset(tys, k),
                cursor == layout_cursor(tys, out@.len() as int),
                maxal == layout_max_align(tys, out@.len() as int),
            decreases rest@.len(),
        {
            let ghost k = out@.len() as int;
            let (name, ty) = rest.remove(0);
            proof {
                assert(orig.subrange(k, orig.len() as int)[0] == orig[k]);
                assert(rest@ =~= orig.subrange(k + 1, orig.len() as int));
                assert(tys[k] == orig[k].1);
            }
            let al = ty.byte_align();
            let sz = ty.byte_size();
            proof {
                lemma_cursor_nonneg(tys, k);
                lemma_align_up(cursor as int, al as int);
                assert(layout_cursor(tys, k + 1) == layout_offset(tys, k) + spec_size(tys[k]));
                lemma_cursor_monotone(tys, k + 1, orig.len() as int);
                lemma_layout_max_align_pos(tys, orig.len() as int);
                lemma_cursor_nonneg(tys, orig.len() as int);
                lemma_align_up_ge(
                    layout_cursor(tys, orig.len() as int),
                    layout_max_align(tys, orig.len() as int),
                );
            }
            let offset = align_up_usize(cursor, al);
            cursor = offset + sz;
            out.push(CompoundField { name, ty, offset });
            maxal = if al > maxal {
                al
            } else {
                maxal
            };
        }
        let ghost n_int = orig.len() as int;
        proof {
            lemma_cursor_nonneg(tys, n_int);
            lemma_layout_max_align_pos(tys, n_int);
            lemma_align_up(layout_cursor(tys, n_int), layout_max_align(tys, n_int));
        }
        let size = align_up_usize(cursor, maxal);
        let c = CompoundType { fields: out, size, align: maxal };
        proof {
            assert(field_tys(c.fields@) =~= tys);
            assert(field_names(c.fields@) =~= pair_names(orig));
        }
        Ok(c)
    }
}

/// Law: a well-formed compound's total size is a multiple of its
/// alignment; every field ends within the total size; consecutive fields
/// do not overlap; and every field offset respects its element's natural
/// alignment.
pub proof fn lemma_compound_layout(c: CompoundType)
    requires
        compound_wf(c),
    ensures
        c.align >= 1,
        c.size as int % c.align as int == 0,
        forall|i: int|
            0 <= i < c.fields@.len() ==> (#[trigger] c.fields@[i]).offset + spec_size(
                c.fields@[i].ty,
            ) <= c.size,
        forall|i: int|
            0 <= i < c.fields@.len() - 1 ==> (#[trigger] c.fields@[i]).offset + spec_size(
                c.fields@[i].ty,
            ) <= c.fields@[i + 1].offset,
        forall|i: int|
            0 <= i < c.fields@.len() && spec_align(c.fields@[i].ty) >= 1 ==> (
            #[trigger] c.fields@[i]).offset as int % spec_align(c.fields@[i].ty) as int == 0,
{
    let tys = field_tys(c.fields@);
    let n = c.fields@.len() as int;
    lemma_layout_max_align_pos(tys, n);
    lemma_cursor_nonneg(tys, n);
    lemma_align_up(layout_cursor(tys, n), layout_max_align(tys, n));
    assert forall|i: int|
        0 <= i < n implies (#[trigger] c.fields@[i]).offset + spec_size(c.fields@[i].ty)
        <= layout_cursor(tys, i + 1) by {
        assert(tys[i] == c.fields@[i].ty);
        assert(layout_cursor(tys, i + 1) == layout_offset(tys, i) + spec_size(tys[i]));
    }
    assert forall|i: int| 0 <= i < n implies #[trigger] layout_cursor(tys, i + 1) <= c.size by {
        lemma_cursor_monotone(tys, i + 1, n);
    }
    assert forall|i: int|
        0 <= i < n - 1 implies (#[trigger] c.fields@[i]).offset + spec_size(c.fields@[i].ty)
        <= c.fields@[i + 1].offset by {
        assert(tys[i] == c.fields@[i].ty);
        assert(tys[i + 1] == c.fields@[i + 1].ty);
        assert(layout_cursor(tys, i + 1) == layout_offset(tys, i) + spec_size(tys[i]));
        lemma_cursor_nonneg(tys, i + 1);
        lemma_align_up_ge(layout_cursor(tys, i + 1), spec_align(tys[i + 1]) as int);
    }
    assert forall|i: int|
        0 <= i < n && spec_align(c.fields@[i].ty) >= 1 implies (
    #[trigger] c.fields@[i]).offset as int % spec_align(c.fields@[i].ty) as int == 0 by {
        assert(tys[i] == c.fields@[i].ty);
        lemma_cursor_nonneg(tys, i);
        lemma_align_up(layout_cursor(tys, i), spec_align(tys[i]) as int);
    }
}

/// The self-describing capability: a represented type produces its own
/// descriptor, purely and without side effects.  Repeated calls yield
/// structurally identical descriptors, and the descriptor's byte size
/// equals the type's in-memory footprint.  The set of representable
/// shapes is closed, so each concrete type carries one implementation.
pub trait H5Type: Sized {
    /// The descriptor of this type's in-memory shape.
    spec fn spec_descriptor() -> TypeDescriptor;

    /// The byte image a value leaves in a buffer of its descriptor's
    /// size (integers little-endian, a boolean as one byte, 0 or 1).
    spec fn spec_bytes_of(v: Self) -> Seq<u8>;

    /// The value read back from such a byte image.
    spec fn spec_read(b: Seq<u8>) -> Self;

    /// Produces this type's descriptor.
    fn type_descriptor() -> (r: TypeDescriptor)
        ensures
            td_equiv(r, Self::spec_descriptor()),
            size_fits(r),
    ;

    /// Writes the value into a fresh buffer matching the descriptor.
    fn write_bytes(&self) -> (r: Vec<u8>)
        ensures
            r@ == Self::spec_bytes_of(*self),
            r@.len() == spec_size(Self::spec_descriptor()),
    ;

    /// Reads a value from a buffer matching the descriptor.
    fn read_bytes(b: &[u8]) -> (r: Self)
        requires
            b@.len() == spec_size(Self::spec_descriptor()),
        ensures
            r == Self::spec_read(b@),
    ;

    /// Law: reading back a written value yields the value again.
    proof fn lemma_write_read_round_trip(v: Self)
        ensures
            Self::spec_read(Self::spec_bytes_of(v)) == v,
    ;
}

impl H5Type for u8 {
    open spec fn spec_descriptor() -> TypeDescriptor {
        TypeDescriptor::Unsigned(IntSize::U1)
    }

    open spec fn spec_bytes_of(v: u8) -> Seq<u8> {
        seq![v]
    }

    open spec fn spec_read(b: Seq<u8>) -> u8 {
        b[0]
    }

    fn type_descriptor() -> (r: TypeDescriptor) {
        TypeDescriptor::Unsigned(IntSize::U1)
    }

    fn write_bytes(&self) -> (r: Vec<u8>) {
        let mut r: Vec<u8> = Vec::new();
        r.push(*self);
        proof {
            assert(r@ =~= Self::spec_bytes_of(*self));
        }
        r
    }

    fn read_bytes(b: &[u8]) -> (r: u8) {
        b[0]
    }

    proof fn lemma_write_read_round_trip(v: u8) {
    }
}

impl H5Type for i8 {
    open spec fn spec_descriptor() -> TypeDescriptor {
        TypeDescriptor::Integer(IntSize::U1)
    }

    open spec fn spec_bytes_of(v: i8) -> Seq<u8> {
        seq![v as u8]
    }

    open spec fn spec_read(b: Seq<u8>) -> i8 {
        b[0] as i8
    }

    fn type_descriptor() -> (r: TypeDescriptor) {
        TypeDescriptor::Integer(IntSize::U1)
    }

    fn write_bytes(&self) -> (r: Vec<u8>) {
        let mut r: Vec<u8> = Vec::new();
        r.push(#[verifier::truncate] (*self as u8));
        proof {
            assert(r@ =~= Self::spec_bytes_of(*self));
        }
        r
    }

    fn read_bytes(b: &[u8]) -> (r: i8) {
        #[verifier::truncate] (b[0] as i8)
    }

    proof fn lemma_write_read_round_trip(v: i8) {
        assert(((v as u8) as i8) == v) by (bit_vector);
    }
}

impl H5Type for bool {
    open spec fn spec_descriptor() -> TypeDescriptor {
        TypeDescriptor::Boolean
    }

    open spec fn spec_bytes_of(v: bool) -> Seq<u8> {
        seq![if v { 1u8 } else { 0u8 }]
    }

    open spec fn spec_read(b: Seq<u8>) -> bool {
        b[0] != 0
    }

    fn type_descriptor() -> (r: TypeDescriptor) {
        TypeDescriptor::Boolean
    }

    fn write_bytes(&self) -> (r: Vec<u8>) {
        let mut r: Vec<u8> = Vec::new();
        r.push(if *self { 1 } else { 0 });
        proof {
            assert(r@ =~= Self::spec_bytes_of(*self));
        }
        r
    }

    fn read_bytes(b: &[u8]) -> (r: bool) {
        b[0] != 0
    }

    proof fn lemma_write_read_round_trip(v: bool) {
    }
}

impl H5Type for u16 {
    open spec fn spec_descriptor() -> TypeDescriptor {
        TypeDescriptor::Unsigned(IntSize::U2)
    }

    open spec fn spec_bytes_of(v: u16) -> Seq<u8> {
        vstd::bytes::spec_u16_to_le_bytes(v)
    }

    open spec fn spec_read(b: Seq<u8>) -> u16 {
        vstd::bytes::spec_u16_from_le_bytes(b)
    }

    fn type_descriptor() -> (r: TypeDescriptor) {
        TypeDescriptor::Unsigned(IntSize::U2)
    }

    fn write_bytes(&self) -> (r: Vec<u8>) {
        vstd::bytes::u16_to_le_bytes(*self)
    }

    fn read_bytes(b: &[u8]) -> (r: u16) {
        vstd::bytes::u16_from_le_bytes(b)
    }

    proof fn lemma_write_read_round_trip(v: u16) {
        vstd::bytes::lemma_auto_spec_u16_to_from_le_bytes();
        assert(vstd::bytes::spec_u16_to_le_bytes(v).len() == 2);
    }
}

impl H5Type for u32 {
    open spec fn spec_descriptor() -> TypeDescriptor {
        TypeDescriptor::Unsigned(IntSize::U4)
    }

    open spec fn spec_bytes_of(v: u32) -> Seq<u8> {
        vstd::bytes::spec_u32_to_le_bytes(v)
    }

    open spec fn spec_read(b: Seq<u8>) -> u32 {
        vstd::bytes::spec_u32_from_le_bytes(b)
    }

    fn type_descriptor() -> (r: TypeDescriptor) {
        TypeDescriptor::Unsigned(IntSize::U4)
    }

    fn write_bytes(&self) -> (r: Vec<u8>) {
        vstd::bytes::u32_to_le_bytes(*self)
    }

    fn read_bytes(b: &[u8]) -> (r: u32) {
        vstd::bytes::u32_from_le_bytes(b)
    }

    proof fn lemma_write_read_round_trip(v: u32) {
        vstd::bytes::lemma_auto_spec_u32_to_from_le_bytes();
        assert(vstd::bytes::spec_u32_to_le_bytes(v).len() == 4);
    }
}

impl H5Type for u64 {
    open spec fn spec_descriptor() -> TypeDescriptor {
        TypeDescriptor::Unsigned(IntSize::U8)
    }

    open spec fn spec_bytes_of(v: u64) -> Seq<u8> {
        vstd::bytes::spec_u64_to_le_bytes(v)
    }

    open spec fn spec_read(b: Seq<u8>) -> u64 {
        vstd::bytes::spec_u64_from_le_bytes(b)
    }

    fn type_descriptor() -> (r: TypeDescriptor) {
        TypeDescriptor::Unsigned(IntSize::U8)
    }

    fn write_bytes(&self) -> (r: Vec<u8>) {
        vstd::bytes::u64_to_le_bytes(*self)
    }

    fn read_bytes(b: &[u8]) -> (r: u64) {
        vstd::bytes::u64_from_le_bytes(b)
    }

    proof fn lemma_write_read_round_trip(v: u64) {
        vstd::bytes::lemma_auto_spec_u64_to_from_le_bytes();
    }
}

impl H5Type for i16 {
    open spec fn spec_descriptor() -> TypeDescriptor {
        TypeDescriptor::Integer(IntSize::U2)
    }

    open spec fn spec_bytes_of(v: i16) -> Seq<u8> {
        vstd::bytes::spec_u16_to_le_bytes(v as u16)
    }

    open spec fn spec_read(b: Seq<u8>) -> i16 {
        vstd::bytes::spec_u16_from_le_bytes(b) as i16
    }

    fn type_descriptor() -> (r: TypeDescriptor) {
        TypeDescriptor::Integer(IntSize::U2)
    }

    fn write_bytes(&self) -> (r: Vec<u8>) {
        vstd::bytes::u16_to_le_bytes(#[verifier::truncate] (*self as u16))
    }

    fn read_bytes(b: &[u8]) -> (r: i16) {
        #[verifier::truncate] (vstd::bytes::u16_from_le_bytes(b) as i16)
    }

    proof fn lemma_write_read_round_trip(v: i16) {
        vstd::bytes::lemma_auto_spec_u16_to_from_le_bytes();
        assert(vstd::bytes::spec_u16_to_le_bytes(v as u16).len() == 2);
        assert(((v as u16) as i16) == v) by (bit_vector);
    }
}

impl H5Type for i32 {
    open spec fn spec_descriptor() -> TypeDescriptor {
        TypeDescriptor::Integer(IntSize::U4)
    }

    open spec fn spec_bytes_of(v: i32) -> Seq<u8> {
        vstd::bytes::spec_u32_to_le_bytes(v as u32)
    }

    open spec fn spec_read(b: Seq<u8>) -> i32 {
        vstd::bytes::spec_u32_from_le_bytes(b) as i32
    }

    fn type_descriptor() -> (r: TypeDescriptor) {
        TypeDescriptor::Integer(IntSize::U4)
    }

    fn write_bytes(&self) -> (r: Vec<u8>) {
        vstd::bytes::u32_to_le_bytes(#[verifier::truncate] (*self as u32))
    }

    fn read_bytes(b: &[u8]) -> (r: i32) {
        #[verifier::truncate] (vstd::bytes::u32_from_le_bytes(b) as i32)
    }

    proof fn lemma_write_read_round_trip(v: i32) {
        vstd::bytes::lemma_auto_spec_u32_to_from_le_bytes();
        assert(vstd::bytes::spec_u32_to_le_bytes(v as u32).len() == 4);
        assert(((v as u32) as i32) == v) by (bit_vector);
    }
}

impl H5Type for i64 {
    open spec fn spec_descriptor() -> TypeDescriptor {
        TypeDescriptor::Integer(IntSize::U8)
    }

    open spec fn spec_bytes_of(v: i64) -> Seq<u8> {
        vstd::bytes::spec_u64_to_le_bytes(v as u64)
    }

    open spec fn spec_read(b: Seq<u8>) -> i64 {
        vstd::bytes::spec_u64_from_le_bytes(b) as i64
    }

    fn type_descriptor() -> (r: TypeDescriptor) {
        TypeDescriptor::Integer(IntSize::U8)
    }

    fn write_bytes(&self) -> (r: Vec<u8>) {
        vstd::bytes::u64_to_le_bytes(#[verifier::truncate] (*self as u64))
    }

    fn read_bytes(b: &[u8]) -> (r: i64) {
        #[verifier::truncate] (vstd::bytes::u64_from_le_bytes(b) as i64)
    }

    proof fn lemma_write_read_round_trip(v: i64) {
        vstd::bytes::lemma_auto_spec_u64_to_from_le_bytes();
        assert(((v as u64) as i64) == v) by (bit_vector);
    }
}

/// The member names of an enumeration, in order, as character sequences.
pub open spec fn member_names(ms: Seq<EnumMember>) -> Seq<Seq<char>> {
    ms.map_values(|m: EnumMember| m.name@)
}

/// The raw member values of an enumeration, in order.
pub open spec fn member_values(ms: Seq<EnumMember>) -> Seq<i64> {
    ms.map_values(|m: EnumMember| m.value)
}

/// No two entries of `vs` are the same raw value.
pub open spec fn values_unique(vs: Seq<i64>) -> bool {
    forall|i: int, j: int| 0 <= i < j < vs.len() ==> vs[i] != vs[j]
}

/// The raw value `v` is representable in a backing integer of the given
/// width and signedness.
pub open spec fn value_representable(v: i64, size: IntSize, signed: bool) -> bool {
    if signed {
        match size {
            IntSize::U1 => -128 <= v <= 127,
            IntSize::U2 => -32768 <= v <= 32767,
            IntSize::U4 => -2147483648 <= v <= 2147483647,
            IntSize::U8 => true,
        }
    } else {
        match size {
            IntSize::U1 => 0 <= v <= 255,
            IntSize::U2 => 0 <= v <= 65535,
            IntSize::U4 => 0 <= v <= 4294967295,
            IntSize::U8 => v >= 0,
        }
    }
}

/// An enumeration is well-formed when member names are unique, raw values
/// are unique, and every raw value fits the backing width.
pub open spec fn enum_wf(e: EnumType) -> bool {
    &&& names_unique(member_names(e.members@))
    &&& values_unique(member_values(e.members@))
    &&& forall|i: int|
        0 <= i < e.members@.len() ==> value_representable(
            (#[trigger] e.members@[i]).value,
            e.size,
            e.signed,
        )
}

/// The name of the first member holding raw value `v`, if any.
pub open spec fn lookup_by_value(ms: Seq<EnumMember>, v: i64) -> Option<Seq<char>>
    decreases ms.len(),
{
    if ms.len() == 0 {
        None
    } else if ms[0].value == v {
        Some(ms[0].name@)
    } else {
        lookup_by_value(ms.drop_first(), v)
    }
}

/// The raw value of the first member named `name`, if any.
pub open spec fn lookup_by_name(ms: Seq<EnumMember>, name: Seq<char>) -> Option<i64>
    decreases ms.len(),
{
    if ms.len() == 0 {
        None
    } else if ms[0].name@ == name {
        Some(ms[0].value)
    } else {
        lookup_by_name(ms.drop_first(), name)
    }
}

/// A value lookup lands on the first index holding the value.
proof fn lemma_lookup_by_value_hit(ms: Seq<EnumMember>, v: i64, i: int)
    requires
        0 <= i < ms.len(),
        forall|j: int| 0 <= j < i ==> (#[trigger] ms[j]).value != v,
        ms[i].value == v,
    ensures
        lookup_by_value(ms, v) == Some(ms[i].name@),
    decreases i,
{
    if i > 0 {
        lemma_lookup_by_value_hit(ms.drop_first(), v, i - 1);
    }
}

/// A value lookup misses when no member holds the value.
proof fn lemma_lookup_by_value_miss(ms: Seq<EnumMember>, v: i64)
    requires
        forall|j: int| 0 <= j < ms.len() ==> (#[trigger] ms[j]).value != v,
    ensures
        lookup_by_value(ms, v) is None,
    decreases ms.len(),
{
    if ms.len() > 0 {
        lemma_lookup_by_value_miss(ms.drop_first(), v);
    }
}

/// A name lookup lands on the first index holding the name.
proof fn lemma_lookup_by_name_hit(ms: Seq<EnumMember>, name: Seq<char>, i: int)
    requires
        0 <= i < ms.len(),
        forall|j: int| 0 <= j < i ==> (#[trigger] ms[j]).name@ != name,
        ms[i].name@ == name,
    ensures
        lookup_by_name(ms, name) == Some(ms[i].value),
    decreases i,
{
    if i > 0 {
        lemma_lookup_by_name_hit(ms.drop_first(), name, i - 1);
    }
}

/// A name lookup misses when no member holds the name.
proof fn lemma_lookup_by_name_miss(ms: Seq<EnumMember>, name: Seq<char>)
    requires
        forall|j: int| 0 <= j < ms.len() ==> (#[trigger] ms[j]).name@ != name,
    ensures
        lookup_by_name(ms, name) is None,
    decreases ms.len(),
{
    if ms.len() > 0 {
        lemma_lookup_by_name_miss(ms.drop_first(), name);
    }
}

/// Decides whether two string slices hold the same characters.
pub fn str_eq(a: &str, b: &str) -> (r: bool)
    ensures
        r == (a@ == b@),
{
    let ab = a.as_bytes();
    let bb = b.as_bytes();
    if ab.len() != bb.len() {
        return false;
    }
    let n = ab.len();
    let mut i: usize = 0;
    while i < n
        invariant
            n == ab@.len() == bb@.len(),
            0 <= i <= n,
            ab@ == vstd::utf8::encode_utf8(a@),
            bb@ == vstd::utf8::encode_utf8(b@),
            forall|j: int| 0 <= j < i ==> ab@[j] == bb@[j],
        decreases n - i,
    {
        if ab[i] != bb[i] {
            return false;
        }
        i = i + 1;
    }
    proof {
        assert(ab@ =~= bb@);
        vstd::utf8::encode_utf8_decode_utf8(a@);
        vstd::utf8::encode_utf8_decode_utf8(b@);
    }
    true
}

impl EnumType {
    /// Builds an enumeration over the given backing width and signedness
    /// from an ordered (name, raw value) list.  Fails with
    /// `DuplicateEnumName` when two members share a name, then with
    /// `DuplicateEnumValue` when two members share a raw value, then with
    /// `EnumValueOverflow` when a raw value does not fit the backing width.
    pub fn build(size: IntSize, signed: bool, defs: Vec<(String, i64)>) -> (r: Result<
        EnumType,
        LayoutError,
    >)
        ensures
            match r {
                Ok(e) => {
                    &&& e.size == size
                    &&& e.signed == signed
                    &&& e.members@.len() == defs@.len()
                    &&& forall|i: int|
                        0 <= i < defs@.len() ==> (#[trigger] e.members@[i]).name@ == defs@[i].0@
                            && e.members@[i].value == defs@[i].1
                    &&& enum_wf(e)
                },
                Err(LayoutError::DuplicateEnumName) => !names_unique(
                    defs@.map_values(|p: (String, i64)| p.0@),
                ),
                Err(LayoutError::DuplicateEnumValue) => names_unique(
                    defs@.map_values(|p: (String, i64)| p.0@),
                ) && !values_unique(defs@.map_values(|p: (String, i64)| p.1)),
                Err(LayoutError::EnumValueOverflow) => {
                    &&& names_unique(defs@.map_values(|p: (String, i64)| p.0@))
                    &&& values_unique(defs@.map_values(|p: (String, i64)| p.1))
                    &&& exists|i: int|
                        0 <= i < defs@.len() && !value_representable(
                            (#[trigger] defs@[i]).1,
                            size,
                            signed,
                        )
                },
                Err(_) => false,
            },
    {
        let ghost names = defs@.map_values(|p: (String, i64)| p.0@);
        let ghost vals = defs@.map_values(|p: (String, i64)| p.1);
        let n = defs.len();
        let mut i: usize = 0;
        while i < n
            invariant
                n == defs@.len(),
                names == defs@.map_values(|p: (String, i64)| p.0@),
                0 <= i <= n,
                forall|p: int, q: int| 0 <= p < q < i ==> names[p] != names[q],
            decreases n - i,
        {
            let mut j: usize = 0;
            while j < i
                invariant
                    n == defs@.len(),
                    names == defs@.map_values(|p: (String, i64)| p.0@),
                    0 <= j <= i < n,
                    forall|p: int, q: int| 0 <= p < q < i ==> names[p] != names[q],
                    forall|p: int| 0 <= p < j ==> names[p] != names[i as int],
                decreases i - j,
            {
                if defs[j].0 == defs[i].0 {
                    proof {
                        assert(names[j as int] == names[i as int]);
                        assert(!names_unique(names));
                    }
                    return Err(LayoutError::DuplicateEnumName);
                }
                j = j + 1;
            }
            i = i + 1;
        }
        let mut i: usize = 0;
        while i < n
            invariant
                n == defs@.len(),
                names == defs@.map_values(|p: (String, i64)| p.0@),
                names_unique(names),
                vals == defs@.map_values(|p: (String, i64)| p.1),
                0 <= i <= n,
                forall|p: int, q: int| 0 <= p < q < i ==> vals[p] != vals[q],
            decreases n - i,
        {
            let mut j: usize = 0;
            while j < i
                invariant
                    n == defs@.len(),
                    names == defs@.map_values(|p: (String, i64)| p.0@),
                    names_unique(names),
                    vals == defs@.map_values(|p: (String, i64)| p.1),
                    0 <= j <= i < n,
                    forall|p: int, q: int| 0 <= p < q < i ==> vals[p] != vals[q],
                    forall|p: int| 0 <= p < j ==> vals[p] != vals[i as int],
                decreases i - j,
            {
                if defs[j].1 == defs[i].1 {
                    proof {
                        assert(vals[j as int] == vals[i as int]);
                        assert(!values_unique(vals));
                    }
                    return Err(LayoutError::DuplicateEnumValue);
                }
                j = j + 1;
            }
            i = i + 1;
        }
        let mut i: usize = 0;
        while i < n
            invariant
                n == defs@.len(),
                names == defs@.map_values(|p: (String, i64)| p.0@),
                names_unique(names),
                vals == defs@.map_values(|p: (String, i64)| p.1),
                values_unique(vals),
                0 <= i <= n,
                forall|p: int|
                    0 <= p < i ==> value_representable((#[trigger] defs@[p]).1, size, signed),
            decreases n - i,
        {
            if !representable(defs[i].1, size, signed) {
                proof {
                    assert(!value_representable((defs@[i as int]).1, size, signed));
                }
                return Err(LayoutError::EnumValueOverflow);
            }
            i = i + 1;
        }
        let ghost orig = defs@;
        let mut rest = defs;
        let mut members: Vec<EnumMember> = Vec::new();
        while rest.len() > 0
            invariant
                members@.len() + rest@.len() == orig.len(),
                rest@ == orig.subrange(members@.len() as int, orig.len() as int),
                names == orig.map_values(|p: (String, i64)| p.0@),
                names_unique(names),
                vals == orig.map_values(|p: (String, i64)| p.1),
                values_unique(vals),
                forall|p: int|
                    0 <= p < orig.len() ==> value_representable((#[trigger] orig[p]).1, size, signed),
                forall|k: int|
                    0 <= k < members@.len() ==> (#[trigger] members@[k]).name@ == orig[k].0@
                        && members@[k].value == orig[k].1,
            decreases rest@.len(),
        {
            let ghost k = members@.len() as int;
            let (name, value) = rest.remove(0);
            proof {
                assert(orig.subrange(k, orig.len() as int)[0] == orig[k]);
                assert(rest@ =~= orig.subrange(k + 1, orig.len() as int));
            }
            members.push(EnumMember { name, value });
        }
        let e = EnumType { size, signed, members };
        proof {
            assert(member_names(e.members@) =~= orig.map_values(|p: (String, i64)| p.0@));
            assert(member_values(e.members@) =~= orig.map_values(|p: (String, i64)| p.1));
        }
        Ok(e)
    }

    /// The byte size of the enumeration: its backing integer's width.
    pub fn byte_size(&self) -> (r: usize)
        ensures
            r == self.size.spec_size(),
    {
        self.size.size()
    }

    /// Decodes a raw value: the name of the first member holding `value`,
    /// or nothing when no member holds it.
    pub fn member_name(&self, value: i64) -> (r: Option<&str>)
        ensures
            match r {
                Some(s) => lookup_by_value(self.members@, value) == Some(s@),
                None => lookup_by_value(self.members@, value) is None,
            },
    {
        let n = self.members.len();
        let mut i: usize = 0;
        while i < n
            invariant
                n == self.members@.len(),
                0 <= i <= n,
                forall|j: int| 0 <= j < i ==> (#[trigger] self.members@[j]).value != value,
            decreases n - i,
        {
            if self.members[i].value == value {
                proof {
                    lemma_lookup_by_value_hit(self.members@, value, i as int);
                }
                return Some(self.members[i].name.as_str());
            }
            i = i + 1;
        }
        proof {
            lemma_lookup_by_value_miss(self.members@, value);
        }
        None
    }

    /// Encodes a name: the raw value of the first member named `name`, or
    /// nothing when no member carries that name.
    pub fn member_value(&self, name: &str) -> (r: Option<i64>)
        ensures
            match r {
                Some(v) => lookup_by_name(self.members@, name@) == Some(v),
                None => lookup_by_name(self.members@, name@) is None,
            },
    {
        let n = self.members.len();
        let mut i: usize = 0;
        while i < n
            invariant
                n == self.members@.len(),
                0 <= i <= n,
                forall|j: int| 0 <= j < i ==> (#[trigger] self.members@[j]).name@ != name@,
            decreases n - i,
        {
            if str_eq(self.members[i].name.as_str(), name) {
                proof {
                    lemma_lookup_by_name_hit(self.members@, name@, i as int);
                }
                return Some(self.members[i].value);
            }
            i = i + 1;
        }
        proof {
            lemma_lookup_by_name_miss(self.members@, name@);
        }
        None
    }
}

/// Decides whether a raw value fits the given backing width and
/// signedness.
fn representable(v: i64, size: IntSize, signed: bool) -> (r: bool)
    ensures
        r == value_representable(v, size, signed),
{
    if signed {
        match size {
            IntSize::U1 => -128 <= v && v <= 127,
            IntSize::U2 => -32768 <= v && v <= 32767,
            IntSize::U4 => -2147483648 <= v && v <= 2147483647,
            IntSize::U8 => true,
        }
    } else {
        match size {
            IntSize::U1 => 0 <= v && v <= 255,
            IntSize::U2 => 0 <= v && v <= 65535,
            IntSize::U4 => 0 <= v && v <= 4294967295,
            IntSize::U8 => v >= 0,
        }
    }
}

/// Law: in a well-formed enumeration, decoding any member's raw value
/// yields that member's name, and re-encoding that name yields the raw
/// value again.  Constructing with duplicate names or values never reaches
/// this state: well-formedness excludes it.
pub proof fn lemma_enum_round_trip(e: EnumType, i: int)
    requires
        enum_wf(e),
        0 <= i < e.members@.len(),
    ensures
        lookup_by_value(e.members@, e.members@[i].value) == Some(e.members@[i].name@),
        lookup_by_name(e.members@, e.members@[i].name@) == Some(e.members@[i].value),
{
    assert forall|j: int| 0 <= j < i implies (#[trigger] e.members@[j]).value
        != e.members@[i].value by {
        assert(member_values(e.members@)[j] == e.members@[j].value);
        assert(member_values(e.members@)[i] == e.members@[i].value);
    }
    assert forall|j: int| 0 <= j < i implies (#[trigger] e.members@[j]).name@
        != e.members@[i].name@ by {
        assert(member_names(e.members@)[j] == e.members@[j].name@);
        assert(member_names(e.members@)[i] == e.members@[i].name@);
    }
    lemma_lookup_by_value_hit(e.members@, e.members@[i].value, i);
    lemma_lookup_by_name_hit(e.members@, e.members@[i].name@, i);
}

/// A descriptor is well-formed when every enumeration and compound inside
/// it satisfies its own invariant, every fixed array has at least one
/// element, and every fixed string owns at least its terminator byte.
pub open spec fn td_wf(td: TypeDescriptor) -> bool
    decreases td,
{
    match td {
        TypeDescriptor::Enum(e) => enum_wf(e),
        TypeDescriptor::Compound(c) => compound_wf(c) && forall|i: int|
            0 <= i < c.fields@.len() ==> td_wf((#[trigger] c.fields@[i]).ty),
        TypeDescriptor::FixedArray(e, n) => n >= 1 && td_wf(*e),
        TypeDescriptor::VarLenArray(e) => td_wf(*e),
        TypeDescriptor::FixedAscii(n) => n >= 1,
        TypeDescriptor::FixedUnicode(n) => n >= 1,
        _ => true,
    }
}

/// The strictest alignment among the first `n` fields never exceeds a
/// bound that every field alignment respects.
proof fn lemma_layout_max_align_bound(tys: Seq<TypeDescriptor>, n: int, bound: int)
    requires
        bound >= 1,
        n <= tys.len(),
        forall|i: int| 0 <= i < n ==> spec_align(#[trigger] tys[i]) <= bound,
    ensures
        layout_max_align(tys, n) <= bound,
    decreases n,
{
    if n > 0 {
        lemma_layout_max_align_bound(tys, n - 1, bound);
    }
}

/// Law: a well-formed descriptor's alignment lies between 1 and the
/// platform maximum.
pub proof fn lemma_td_wf_align(td: TypeDescriptor)
    requires
        td_wf(td),
    ensures
        1 <= spec_align(td) <= MAX_ALIGN,
    decreases td,
{
    match td {
        TypeDescriptor::Compound(c) => {
            let tys = field_tys(c.fields@);
            let n = c.fields@.len() as int;
            lemma_layout_max_align_pos(tys, n);
            assert forall|i: int| 0 <= i < n implies spec_align(#[trigger] tys[i])
                <= MAX_ALIGN by {
                assert(tys[i] == c.fields@[i].ty);
                assert(td_wf(c.fields@[i].ty));
                lemma_td_wf_align(c.fields@[i].ty);
            }
            lemma_layout_max_align_bound(tys, n, MAX_ALIGN as int);
        },
        TypeDescriptor::FixedArray(e, _) => {
            lemma_td_wf_align(*e);
        },
        _ => {},
    }
}

/// Byte compatibility is reflexive: every descriptor is compatible with
/// itself.
pub proof fn lemma_equiv_reflexive(a: TypeDescriptor)
    ensures
        td_equiv(a, a),
    decreases a,
{
    match a {
        TypeDescriptor::Compound(x) => {
            reveal_with_fuel(td_equiv, 3);
            assert forall|i: int| 0 <= i < x.fields@.len() implies field_equiv(
                #[trigger] x.fields@[i],
                x.fields@[i],
            ) by {
                reveal_with_fuel(td_equiv, 3);
                lemma_equiv_reflexive(x.fields@[i].ty);
            }
        },
        TypeDescriptor::FixedArray(e, _) => {
            lemma_equiv_reflexive(*e);
        },
        TypeDescriptor::VarLenArray(e) => {
            lemma_equiv_reflexive(*e);
        },
        _ => {},
    }
}

/// Byte compatibility is symmetric.
pub proof fn lemma_equiv_symmetric(a: TypeDescriptor, b: TypeDescriptor)
    requires
        td_equiv(a, b),
    ensures
        td_equiv(b, a),
    decreases a,
{
    match (a, b) {
        (TypeDescriptor::Compound(x), TypeDescriptor::Compound(y)) => {
            reveal_with_fuel(td_equiv, 3);
            assert forall|i: int| 0 <= i < y.fields@.len() implies field_equiv(
                #[trigger] y.fields@[i],
                x.fields@[i],
            ) by {
                reveal_with_fuel(td_equiv, 3);
                assert(field_equiv(x.fields@[i], y.fields@[i]));
                lemma_equiv_symmetric(x.fields@[i].ty, y.fields@[i].ty);
            }
        },
        (TypeDescriptor::FixedArray(e1, _), TypeDescriptor::FixedArray(e2, _)) => {
            lemma_equiv_symmetric(*e1, *e2);
        },
        (TypeDescriptor::VarLenArray(e1), TypeDescriptor::VarLenArray(e2)) => {
            lemma_equiv_symmetric(*e1, *e2);
        },
        _ => {},
    }
}

/// Byte compatibility is transitive.
pub proof fn lemma_equiv_transitive(a: TypeDescriptor, b: TypeDescriptor, c: TypeDescriptor)
    requires
        td_equiv(a, b),
        td_equiv(b, c),
    ensures
        td_equiv(a, c),
    decreases a,
{
    match (a, b, c) {
        (
            TypeDescriptor::Compound(x),
            TypeDescriptor::Compound(y),
            TypeDescriptor::Compound(z),
        ) => {
            reveal_with_fuel(td_equiv, 3);
            assert forall|i: int| 0 <= i < x.fields@.len() implies field_equiv(
                #[trigger] x.fields@[i],
                z.fields@[i],
            ) by {
                reveal_with_fuel(td_equiv, 3);
                assert(field_equiv(x.fields@[i], y.fields@[i]));
                assert(field_equiv(y.fields@[i], z.fields@[i]));
                lemma_equiv_transitive(x.fields@[i].ty, y.fields@[i].ty, z.fields@[i].ty);
            }
        },
        (
            TypeDescriptor::FixedArray(e1, _),
            TypeDescriptor::FixedArray(e2, _),
            TypeDescriptor::FixedArray(e3, _),
        ) => {
            lemma_equiv_transitive(*e1, *e2, *e3);
        },
        (
            TypeDescriptor::VarLenArray(e1),
            TypeDescriptor::VarLenArray(e2),
            TypeDescriptor::VarLenArray(e3),
        ) => {
            lemma_equiv_transitive(*e1, *e2, *e3);
        },
        _ => {},
    }
}

/// Law: producing a type's descriptor is deterministic.  Any two
/// descriptors a self-describing type hands out are structurally
/// identical, hence byte-compatible.
pub proof fn lemma_self_description_deterministic<T: H5Type>(r1: TypeDescriptor, r2: TypeDescriptor)
    requires
        td_equiv(r1, T::spec_descriptor()),
        td_equiv(r2, T::spec_descriptor()),
    ensures
        td_equiv(r1, r2),
{
    lemma_equiv_symmetric(r2, T::spec_descriptor());
    lemma_equiv_transitive(r1, T::spec_descriptor(), r2);
}

/// Two byte-compatible descriptors occupy the same number of bytes and
/// require the same alignment.
pub proof fn lemma_equiv_same_layout(a: TypeDescriptor, b: TypeDescriptor)
    requires
        td_equiv(a, b),
    ensures
        spec_size(a) == spec_size(b),
        spec_align(a) == spec_align(b),
    decreases a,
{
    match (a, b) {
        (TypeDescriptor::FixedArray(e1, n1), TypeDescriptor::FixedArray(e2, n2)) => {
            lemma_equiv_same_layout(*e1, *e2);
            assert(n1 == n2);
            assert(spec_size(a) == n1 as nat * spec_size(*e1));
            assert(spec_size(b) == n2 as nat * spec_size(*e2));
        },
        (TypeDescriptor::Enum(x), TypeDescriptor::Enum(y)) => {
            assert(x.size == y.size);
        },
        (TypeDescriptor::Compound(x), TypeDescriptor::Compound(y)) => {
            assert(compound_equiv(x, y)) by {
                reveal_with_fuel(td_equiv, 2);
            }
        },
        _ => {},
    }
}

/// The layout algorithm depends only on the sizes and alignments of the
/// field descriptors.
proof fn lemma_layout_equal(ta: Seq<TypeDescriptor>, tb: Seq<TypeDescriptor>, k: int)
    requires
        ta.len() == tb.len(),
        k <= ta.len(),
        forall|i: int|
            0 <= i < ta.len() ==> spec_size(#[trigger] ta[i]) == spec_size(tb[i]) && spec_align(
                ta[i],
            ) == spec_align(tb[i]),
    ensures
        layout_cursor(ta, k) == layout_cursor(tb, k),
        layout_max_align(ta, k) == layout_max_align(tb, k),
    decreases k,
{
    if k > 0 {
        lemma_layout_equal(ta, tb, k - 1);
    }
}

/// Law: two independently defined compounds with identical field order,
/// names and element types are byte-compatible, and byte-compatible
/// compounds agree on field order, names and element types.  Both sides
/// must carry the layout their own field list derives.
pub proof fn lemma_compound_compat_same_definition(a: CompoundType, b: CompoundType)
    requires
        compound_wf(a),
        compound_wf(b),
    ensures
        compound_equiv(a, b) <==> (a.fields@.len() == b.fields@.len() && forall|i: int|
            0 <= i < a.fields@.len() ==> (#[trigger] a.fields@[i]).name@ == b.fields@[i].name@
                && td_equiv(a.fields@[i].ty, b.fields@[i].ty)),
{
    let ta = field_tys(a.fields@);
    let tb = field_tys(b.fields@);
    let n = a.fields@.len() as int;
    if compound_equiv(a, b) {
        assert forall|i: int|
            0 <= i < a.fields@.len() implies (#[trigger] a.fields@[i]).name@ == b.fields@[i].name@
            && td_equiv(a.fields@[i].ty, b.fields@[i].ty) by {
            assert(field_equiv(a.fields@[i], b.fields@[i]));
        }
    }
    if a.fields@.len() == b.fields@.len() && (forall|i: int|
        0 <= i < a.fields@.len() ==> (#[trigger] a.fields@[i]).name@ == b.fields@[i].name@
            && td_equiv(a.fields@[i].ty, b.fields@[i].ty)) {
        assert forall|i: int|
            0 <= i < n implies spec_size(#[trigger] ta[i]) == spec_size(tb[i]) && spec_align(ta[i])
            == spec_align(tb[i]) by {
            assert(ta[i] == a.fields@[i].ty);
            assert(tb[i] == b.fields@[i].ty);
            lemma_equiv_same_layout(a.fields@[i].ty, b.fields@[i].ty);
        }
        lemma_layout_equal(ta, tb, n);
        assert forall|i: int| 0 <= i < n implies field_equiv(#[trigger] a.fields@[i], b.fields@[i]) by {
            lemma_layout_equal(ta, tb, i);
            assert(ta[i] == a.fields@[i].ty);
            assert(tb[i] == b.fields@[i].ty);
            assert(a.fields@[i].offset == layout_offset(ta, i));
            assert(b.fields@[i].offset == layout_offset(tb, i));
        }
        assert(compound_equiv(a, b));
    }
}

} // verus!

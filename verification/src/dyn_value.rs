//! Dynamic values: a type-erased pairing of a descriptor with bytes, used
//! when the concrete type of a buffer is known only at runtime.  The
//! borrowed form views caller memory; the owning form holds its own
//! storage.  Every reinterpretation is gated on byte compatibility.

use vstd::prelude::*;

verus! {

use crate::h5type::{TypeDescriptor, td_equiv, spec_size, size_fits, lemma_equiv_same_layout};

/// Reinterpretation was attempted between two descriptors that are not
/// byte-compatible.  The caller decides how to recover.
#[derive(Clone, Copy, Debug, PartialEq, Eq, Structural)]
pub struct TypeMismatch;

/// A borrowed dynamic value: a descriptor together with a non-owned view
/// over caller memory sized to the descriptor's byte size.  It cannot
/// outlive the memory it views.
pub struct DynValue<'a> {
    tp: &'a TypeDescriptor,
    data: &'a [u8],
}

impl<'a> DynValue<'a> {
    /// The descriptor this value carries.
    pub closed spec fn spec_descriptor(&self) -> TypeDescriptor {
        *self.tp
    }

    /// The viewed bytes.
    pub closed spec fn spec_bytes(&self) -> Seq<u8> {
        self.data@
    }

    /// Well-formed: the view is sized to the descriptor's byte size.
    pub open spec fn wf(&self) -> bool {
        self.spec_bytes().len() == spec_size(self.spec_descriptor())
    }

    /// Pairs a descriptor with a caller-supplied buffer sized to the
    /// descriptor's byte size.
    pub fn new(tp: &'a TypeDescriptor, data: &'a [u8]) -> (r: DynValue<'a>)
        requires
            data@.len() == spec_size(*tp),
        ensures
            r.spec_descriptor() == *tp,
            r.spec_bytes() == data@,
            r.wf(),
    {
        DynValue { tp, data }
    }

    /// The descriptor this value carries.
    pub fn descriptor(&self) -> (r: &TypeDescriptor)
        ensures
            *r == self.spec_descriptor(),
    {
        self.tp
    }

    /// Raw access to the viewed bytes.
    pub fn bytes(&self) -> (r: &[u8])
        ensures
            r@ == self.spec_bytes(),
    {
        self.data
    }

    /// Reinterprets the bytes as a value of the target type: succeeds iff
    /// the held descriptor is byte-compatible with the target descriptor,
    /// and fails with `TypeMismatch` otherwise.  The bytes themselves are
    /// untouched.
    pub fn reinterpret(&self, target: &'a TypeDescriptor) -> (r: Result<DynValue<'a>, TypeMismatch>)
        ensures
            match r {
                Ok(v) => td_equiv(self.spec_descriptor(), *target) && v.spec_descriptor()
                    == *target && v.spec_bytes() == self.spec_bytes(),
                Err(_) => !td_equiv(self.spec_descriptor(), *target),
            },
    {
        if self.tp.is_compatible_with(target) {
            Ok(DynValue { tp: target, data: self.data })
        } else {
            Err(TypeMismatch)
        }
    }
}

/// An owning dynamic value: a descriptor together with exclusively-owned
/// storage sized to the descriptor's byte size, released when the value is
/// destroyed.
#[derive(Debug)]
pub struct OwnedDynValue {
    tp: TypeDescriptor,
    data: Vec<u8>,
}

impl OwnedDynValue {
    /// The descriptor this value carries.
    pub closed spec fn spec_descriptor(&self) -> TypeDescriptor {
        self.tp
    }

    /// The owned bytes.
    pub closed spec fn spec_bytes(&self) -> Seq<u8> {
        self.data@
    }

    /// Well-formed: the storage is sized to the descriptor's byte size.
    pub open spec fn wf(&self) -> bool {
        self.spec_bytes().len() == spec_size(self.spec_descriptor())
    }

    /// Allocates zero-filled storage sized to the descriptor.
    pub fn zeroed(tp: TypeDescriptor) -> (r: OwnedDynValue)
        requires
            size_fits(tp),
        ensures
            r.spec_descriptor() == tp,
            r.spec_bytes().len() == spec_size(tp),
            forall|i: int| 0 <= i < r.spec_bytes().len() ==> r.spec_bytes()[i] == 0,
            r.wf(),
    {
        let n = tp.byte_size();
        let mut data: Vec<u8> = Vec::new();
        while data.len() < n
            invariant
                data@.len() <= n,
                forall|i: int| 0 <= i < data@.len() ==> data@[i] == 0,
            decreases n - data@.len(),
        {
            data.push(0);
        }
        OwnedDynValue { tp, data }
    }

    /// Copies the bytes out of a borrowed value into owned storage.  The
    /// copy carries a byte-compatible descriptor and identical bytes, and
    /// stays valid after the borrowed value's underlying memory is
    /// released.
    pub fn from_borrowed(v: &DynValue) -> (r: OwnedDynValue)
        ensures
            td_equiv(r.spec_descriptor(), v.spec_descriptor()),
            r.spec_bytes() == v.spec_bytes(),
            v.wf() ==> r.wf(),
    {
        let tp = v.descriptor().clone();
        let data = vstd::slice::slice_to_vec(v.bytes());
        proof {
            lemma_equiv_same_layout(tp, v.spec_descriptor());
        }
        OwnedDynValue { tp, data }
    }

    /// The descriptor this value carries.
    pub fn descriptor(&self) -> (r: &TypeDescriptor)
        ensures
            *r == self.spec_descriptor(),
    {
        &self.tp
    }

    /// Raw access to the owned bytes.
    pub fn bytes(&self) -> (r: &[u8])
        ensures
            r@ == self.spec_bytes(),
    {
        self.data.as_slice()
    }

    /// Borrows this value as a dynamic view of the same descriptor and
    /// bytes.
    pub fn as_dyn(&self) -> (r: DynValue<'_>)
        requires
            self.wf(),
        ensures
            r.spec_descriptor() == self.spec_descriptor(),
            r.spec_bytes() == self.spec_bytes(),
            r.wf(),
    {
        DynValue::new(&self.tp, self.data.as_slice())
    }
}

} // verus!

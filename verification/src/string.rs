//! The string models: fixed-capacity strings that own exactly N bytes of
//! storage, null-padded after their content, and variable-capacity strings
//! that carry validated content of any length.  Content is validated
//! against a charset: the ASCII variants reject any byte at or above 0x80,
//! the Unicode variants hold well-formed UTF-8 (guaranteed here by taking
//! content as `&str`).

use vstd::prelude::*;

verus! {

use vstd::utf8::{valid_utf8, encode_utf8, encode_utf8_valid_utf8};

/// Invalid string content, recoverable by supplying corrected input.
#[derive(Clone, Copy, Debug, PartialEq, Eq, Structural)]
pub enum StringError {
    /// Encoded content is longer than the capacity allows: a fixed string
    /// of capacity N holds at most N - 1 content bytes, reserving one byte
    /// for a terminator.
    TooLong,
    /// A byte outside the charset: a byte at or above 0x80 in ASCII
    /// content.
    InvalidEncoding,
}

/// Every byte of `b` is 7-bit ASCII (below 0x80).
pub open spec fn ascii_bytes(b: Seq<u8>) -> bool {
    forall|i: int| 0 <= i < b.len() ==> b[i] < 0x80
}

/// Copies the bytes of `s` into a zero-padded buffer of exactly
/// `capacity` bytes.  Callers guarantee that the content fits.
fn fill_padded(bytes: &[u8], capacity: usize) -> (r: Vec<u8>)
    requires
        bytes@.len() < capacity,
    ensures
        r@.len() == capacity,
        r@.subrange(0, bytes@.len() as int) == bytes@,
        forall|i: int| bytes@.len() <= i < capacity ==> r@[i] == 0,
{
    let n = bytes.len();
    let mut buf: Vec<u8> = Vec::new();
    let mut i: usize = 0;
    while i < n
        invariant
            n == bytes@.len() < capacity,
            0 <= i <= n,
            buf@.len() == i,
            forall|j: int| 0 <= j < i ==> buf@[j] == bytes@[j],
        decreases n - i,
    {
        buf.push(bytes[i]);
        i = i + 1;
    }
    while buf.len() < capacity
        invariant
            n == bytes@.len() < capacity,
            n <= buf@.len() <= capacity,
            forall|j: int| 0 <= j < n ==> buf@[j] == bytes@[j],
            forall|j: int| n <= j < buf@.len() ==> buf@[j] == 0,
        decreases capacity - buf@.len(),
    {
        buf.push(0);
    }
    proof {
        assert(buf@.subrange(0, bytes@.len() as int) =~= bytes@);
    }
    buf
}

/// Decides whether every byte of `bytes` is below 0x80.
fn check_ascii(bytes: &[u8]) -> (r: bool)
    ensures
        r == ascii_bytes(bytes@),
{
    let n = bytes.len();
    let mut i: usize = 0;
    while i < n
        invariant
            n == bytes@.len(),
            0 <= i <= n,
            forall|j: int| 0 <= j < i ==> bytes@[j] < 0x80,
        decreases n - i,
    {
        if bytes[i] >= 0x80 {
            return false;
        }
        i = i + 1;
    }
    true
}

/// A fixed-capacity ASCII string: exactly N owned bytes, the content
/// followed by zero padding, every content byte below 0x80, and one byte
/// always reserved for a terminator.
#[derive(Debug)]
pub struct FixedAscii {
    buf: Vec<u8>,
    len: usize,
}

impl FixedAscii {
    /// The whole owned buffer: content followed by zero padding.
    pub closed spec fn spec_raw(&self) -> Seq<u8> {
        self.buf@
    }

    /// The capacity N: the number of owned bytes.
    pub closed spec fn spec_capacity(&self) -> nat {
        self.buf@.len()
    }

    /// The content length in bytes.
    pub closed spec fn spec_len(&self) -> nat {
        self.len as nat
    }

    /// The content bytes.
    pub open spec fn contents(&self) -> Seq<u8> {
        self.spec_raw().subrange(0, self.spec_len() as int)
    }

    /// Well-formed: the content leaves room for a terminator, every
    /// content byte is ASCII, and everything past the content is zero.
    pub open spec fn wf(&self) -> bool {
        &&& self.spec_len() + 1 <= self.spec_capacity()
        &&& ascii_bytes(self.contents())
        &&& forall|i: int|
            self.spec_len() <= i < self.spec_raw().len() ==> self.spec_raw()[i] == 0
    }

    /// Builds a fixed ASCII string of the given capacity from `s`.
    /// Fails with `InvalidEncoding` when a byte of `s` is at or above
    /// 0x80, and with `TooLong` when the content does not leave room for
    /// the terminator; otherwise stores the content followed by zero
    /// padding.
    pub fn from_str(s: &str, capacity: usize) -> (r: Result<FixedAscii, StringError>)
        ensures
            match r {
                Ok(fa) => {
                    &&& ascii_bytes(encode_utf8(s@))
                    &&& encode_utf8(s@).len() + 1 <= capacity
                    &&& fa.wf()
                    &&& fa.spec_capacity() == capacity
                    &&& fa.contents() == encode_utf8(s@)
                },
                Err(StringError::InvalidEncoding) => !ascii_bytes(encode_utf8(s@)),
                Err(StringError::TooLong) => ascii_bytes(encode_utf8(s@)) && encode_utf8(
                    s@,
                ).len() + 1 > capacity,
            },
    {
        let bytes = s.as_bytes();
        if !check_ascii(bytes) {
            return Err(StringError::InvalidEncoding);
        }
        if bytes.len() >= capacity {
            return Err(StringError::TooLong);
        }
        let buf = fill_padded(bytes, capacity);
        Ok(FixedAscii { buf, len: bytes.len() })
    }

    /// The capacity N.
    pub fn capacity(&self) -> (r: usize)
        ensures
            r == self.spec_capacity(),
    {
        self.buf.len()
    }

    /// The content length in bytes.
    pub fn len(&self) -> (r: usize)
        ensures
            r == self.spec_len(),
    {
        self.len
    }

    /// The whole owned buffer, content followed by zero padding.
    pub fn raw_bytes(&self) -> (r: &[u8])
        ensures
            r@ == self.spec_raw(),
    {
        self.buf.as_slice()
    }

    /// A copy of the content bytes.
    pub fn content_bytes(&self) -> (r: Vec<u8>)
        requires
            self.wf(),
        ensures
            r@ == self.contents(),
    {
        copy_prefix(&self.buf, self.len)
    }
}

/// A fixed-capacity Unicode string: exactly N owned bytes, well-formed
/// UTF-8 content followed by zero padding, one byte reserved for a
/// terminator.
#[derive(Debug)]
pub struct FixedUnicode {
    buf: Vec<u8>,
    len: usize,
}

impl FixedUnicode {
    /// The whole owned buffer: content followed by zero padding.
    pub closed spec fn spec_raw(&self) -> Seq<u8> {
        self.buf@
    }

    /// The capacity N: the number of owned bytes.
    pub closed spec fn spec_capacity(&self) -> nat {
        self.buf@.len()
    }

    /// The content length in bytes.
    pub closed spec fn spec_len(&self) -> nat {
        self.len as nat
    }

    /// The content bytes.
    pub open spec fn contents(&self) -> Seq<u8> {
        self.spec_raw().subrange(0, self.spec_len() as int)
    }

    /// Well-formed: the content leaves room for a terminator, the content
    /// is well-formed UTF-8, and everything past the content is zero.
    pub open spec fn wf(&self) -> bool {
        &&& self.spec_len() + 1 <= self.spec_capacity()
        &&& valid_utf8(self.contents())
        &&& forall|i: int|
            self.spec_len() <= i < self.spec_raw().len() ==> self.spec_raw()[i] == 0
    }

    /// Builds a fixed Unicode string of the given capacity from `s`.
    /// The content of a `&str` is always well-formed UTF-8, so the only
    /// failure is `TooLong`: the encoded content must leave room for the
    /// terminator.
    pub fn from_str(s: &str, capacity: usize) -> (r: Result<FixedUnicode, StringError>)
        ensures
            match r {
                Ok(fu) => {
                    &&& encode_utf8(s@).len() + 1 <= capacity
                    &&& fu.wf()
                    &&& fu.spec_capacity() == capacity
                    &&& fu.contents() == encode_utf8(s@)
                },
                Err(StringError::TooLong) => encode_utf8(s@).len() + 1 > capacity,
                Err(_) => false,
            },
    {
        let bytes = s.as_bytes();
        if bytes.len() >= capacity {
            return Err(StringError::TooLong);
        }
        let buf = fill_padded(bytes, capacity);
        proof {
            encode_utf8_valid_utf8(s@);
        }
        Ok(FixedUnicode { buf, len: bytes.len() })
    }

    /// The capacity N.
    pub fn capacity(&self) -> (r: usize)
        ensures
            r == self.spec_capacity(),
    {
        self.buf.len()
    }

    /// The content length in bytes.
    pub fn len(&self) -> (r: usize)
        ensures
            r == self.spec_len(),
    {
        self.len
    }

    /// The whole owned buffer, content followed by zero padding.
    pub fn raw_bytes(&self) -> (r: &[u8])
        ensures
            r@ == self.spec_raw(),
    {
        self.buf.as_slice()
    }

    /// A copy of the content bytes.
    pub fn content_bytes(&self) -> (r: Vec<u8>)
        requires
            self.wf(),
        ensures
            r@ == self.contents(),
    {
        copy_prefix(&self.buf, self.len)
    }
}

/// Copies the first `len` bytes of `buf`.
fn copy_prefix(buf: &Vec<u8>, len: usize) -> (r: Vec<u8>)
    requires
        len <= buf@.len(),
    ensures
        r@ == buf@.subrange(0, len as int),
{
    let mut out: Vec<u8> = Vec::new();
    let mut i: usize = 0;
    while i < len
        invariant
            len <= buf@.len(),
            0 <= i <= len,
            out@.len() == i,
            forall|j: int| 0 <= j < i ==> out@[j] == buf@[j],
        decreases len - i,
    {
        out.push(buf[i]);
        i = i + 1;
    }
    proof {
        assert(out@ =~= buf@.subrange(0, len as int));
    }
    out
}

/// A variable-capacity ASCII string: validated content of any length.
/// Across the foreign boundary such a string is passed as a handle into
/// storage the runtime collaborator owns; this value carries the validated
/// content itself.
#[derive(Debug)]
pub struct VarLenAscii {
    buf: Vec<u8>,
}

impl VarLenAscii {
    /// The content bytes.
    pub closed spec fn contents(&self) -> Seq<u8> {
        self.buf@
    }

    /// Well-formed: every content byte is ASCII.
    pub open spec fn wf(&self) -> bool {
        ascii_bytes(self.contents())
    }

    /// Builds a variable-capacity ASCII string from `s`.  Fails with
    /// `InvalidEncoding` when a byte of `s` is at or above 0x80; the
    /// length is unconstrained.
    pub fn from_str(s: &str) -> (r: Result<VarLenAscii, StringError>)
        ensures
            match r {
                Ok(va) => {
                    &&& ascii_bytes(encode_utf8(s@))
                    &&& va.wf()
                    &&& va.contents() == encode_utf8(s@)
                },
                Err(StringError::InvalidEncoding) => !ascii_bytes(encode_utf8(s@)),
                Err(_) => false,
            },
    {
        let bytes = s.as_bytes();
        if !check_ascii(bytes) {
            return Err(StringError::InvalidEncoding);
        }
        Ok(VarLenAscii { buf: vstd::slice::slice_to_vec(bytes) })
    }

    /// The content length in bytes.
    pub fn len(&self) -> (r: usize)
        ensures
            r == self.contents().len(),
    {
        self.buf.len()
    }

    /// The content bytes.
    pub fn as_bytes(&self) -> (r: &[u8])
        ensures
            r@ == self.contents(),
    {
        self.buf.as_slice()
    }
}

/// A variable-capacity Unicode string: well-formed UTF-8 content of any
/// length.  Across the foreign boundary such a string is passed as a
/// handle into storage the runtime collaborator owns; this value carries
/// the validated content itself.
#[derive(Debug)]
pub struct VarLenUnicode {
    buf: Vec<u8>,
}

impl VarLenUnicode {
    /// The content bytes.
    pub closed spec fn contents(&self) -> Seq<u8> {
        self.buf@
    }

    /// Well-formed: the content is well-formed UTF-8.
    pub open spec fn wf(&self) -> bool {
        valid_utf8(self.contents())
    }

    /// Builds a variable-capacity Unicode string from `s`.  The content
    /// of a `&str` is always well-formed UTF-8 and the length is
    /// unconstrained, so construction never fails.
    pub fn from_str(s: &str) -> (r: VarLenUnicode)
        ensures
            r.wf(),
            r.contents() == encode_utf8(s@),
    {
        proof {
            encode_utf8_valid_utf8(s@);
        }
        VarLenUnicode { buf: vstd::slice::slice_to_vec(s.as_bytes()) }
    }

    /// The content length in bytes.
    pub fn len(&self) -> (r: usize)
        ensures
            r == self.contents().len(),
    {
        self.buf.len()
    }

    /// The content bytes.
    pub fn as_bytes(&self) -> (r: &[u8])
        ensures
            r@ == self.contents(),
    {
        self.buf.as_slice()
    }
}

} // verus!

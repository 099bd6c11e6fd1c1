//! Byte sources for the parser: a borrowed slice and a null-padded
//! owned buffer.

use vstd::prelude::*;

verus! {

use vstd::string::StringSliceAdditionalSpecFns;

/// Relies on simdutf8::basic::from_utf8: it returns `Ok` exactly when the
/// input is valid UTF-8.
#[verifier::external_body]
fn utf8_ok(b: &[u8]) -> (r: bool)
    ensures
        r == vstd::utf8::valid_utf8(b@),
{
    simdutf8::basic::from_utf8(b).is_ok()
}

/// A source of bytes to parse.
pub trait Source {
    /// The bytes the source holds.
    spec fn contents(&self) -> Seq<u8>;

    /// Whether the source is in a fit state to be read.
    spec fn wf_source(&self) -> bool;

    /// The bytes the source holds.
    fn bytes(&self) -> (r: &[u8])
        requires
            self.wf_source(),
        ensures
            r@ == self.contents(),
    ;

    /// The byte length of the source.
    fn len(&self) -> (r: usize)
        requires
            self.wf_source(),
        ensures
            r == self.contents().len(),
    ;
}

/// A borrowed byte slice, the preferred source.
#[derive(Clone, Copy, Debug, PartialEq, Eq)]
pub struct Slice<'a> {
    pub data: &'a [u8],
}

impl<'a> Slice<'a> {
    /// The bytes of a string slice; no validation is needed.
    pub fn from_str(s: &'a str) -> (r: Slice<'a>)
        ensures
            r.data@ == s.spec_bytes(),
    {
        Slice { data: s.as_bytes() }
    }

    /// A byte slice, accepted only when it is valid UTF-8.
    pub fn from_bytes(b: &'a [u8]) -> (r: Option<Slice<'a>>)
        ensures
            r is Some <==> vstd::utf8::valid_utf8(b@),
            r matches Some(sl) ==> sl.data@ == b@,
    {
        if utf8_ok(b) {
            Some(Slice { data: b })
        } else {
            None
        }
    }
}

impl<'a> Source for Slice<'a> {
    open spec fn contents(&self) -> Seq<u8> {
        self.data@
    }

    open spec fn wf_source(&self) -> bool {
        true
    }

    fn bytes(&self) -> (r: &[u8]) {
        self.data
    }

    fn len(&self) -> (r: usize) {
        self.data.len()
    }
}

/// An owned buffer that keeps 64 zero bytes after its logical end, so a
/// reader may look past the end without a bounds check and see zeros.
#[derive(Debug, Clone, PartialEq, Eq)]
pub struct NullPadded {
    buf: Vec<u8>,
    len: usize,
}

impl NullPadded {
    /// The 64 bytes after the logical end are present and zero.
    pub closed spec fn wf(&self) -> bool {
        self.len + 64 <= self.buf@.len() && (forall|k: int|
            self.len <= k < self.len + 64 ==> self.buf@[k] == 0)
    }

    /// The bytes up to the logical end.
    pub closed spec fn contents_spec(&self) -> Seq<u8> {
        self.buf@.take(self.len as int)
    }

    /// The full size of the held buffer, zero tail included.
    pub closed spec fn held(&self) -> int {
        self.buf@.len() as int
    }

    /// An empty null-padded buffer.
    pub fn new() -> (r: NullPadded)
        ensures
            r.wf(),
            r.contents_spec() == Seq::<u8>::empty(),
            r.held() == 64,
    {
        let mut buf: Vec<u8> = Vec::new();
        let mut i: usize = 0;
        while i < 64
            invariant
                0 <= i <= 64,
                buf@.len() == i,
                forall|k: int| 0 <= k < i ==> buf@[k] == 0,
            decreases 64 - i,
        {
            buf.push(0);
            i = i + 1;
        }
        let r = NullPadded { buf, len: 0 };
        proof {
            assert(r.contents_spec() =~= Seq::<u8>::empty());
        }
        r
    }

    /// A null-padded copy of the string's bytes.
    pub fn from_str(s: &str) -> (r: NullPadded)
        ensures
            r.wf(),
            r.contents_spec() == s.spec_bytes(),
            r.held() == s.spec_bytes().len() + 64,
    {
        let b = s.as_bytes();
        let mut buf: Vec<u8> = vstd::slice::slice_to_vec(b);
        let n = buf.len();
        let mut i: usize = 0;
        while i < 64
            invariant
                0 <= i <= 64,
                buf@.len() == n + i,
                n == s.spec_bytes().len(),
                buf@.take(n as int) == s.spec_bytes(),
                forall|k: int| n <= k < n + i ==> buf@[k] == 0,
            decreases 64 - i,
        {
            let ghost before = buf@;
            buf.push(0);
            proof {
                assert(buf@.take(n as int) =~= before.take(n as int));
            }
            i = i + 1;
        }
        NullPadded { buf, len: n }
    }

    /// Writes the string's bytes into the buffer, reallocating only when
    /// the held buffer is too small for them and the 64-byte zero tail.
    pub fn write_str(&mut self, s: &str)
        ensures
            final(self).wf(),
            final(self).contents_spec() == s.spec_bytes(),
            old(self).held() >= s.spec_bytes().len() + 64 ==> final(self).held() == old(
                self,
            ).held(),
            old(self).held() < s.spec_bytes().len() + 64 ==> final(self).held() == s.spec_bytes().len() + 64,
            final(self).held() >= old(self).held() || final(self).held() >= s.spec_bytes().len() + 64,
    {
        let b = s.as_bytes();
        let n = b.len();
        if self.buf.len() < n || self.buf.len() - n < 64 {
            let fresh = NullPadded::from_str(s);
            self.buf = fresh.buf;
            self.len = fresh.len;
            return;
        }
        let mut i: usize = 0;
        while i < n
            invariant
                0 <= i <= n,
                n + 64 <= self.buf@.len(),
                n == b@.len(),
                b@ == s.spec_bytes(),
                self.buf@.len() == old(self).buf@.len(),
                forall|k: int| 0 <= k < i ==> self.buf@[k] == b@[k],
            decreases n - i,
        {
            self.buf[i] = b[i];
            i = i + 1;
        }
        let cap = self.buf.len();
        let mut j: usize = 0;
        while j < 64
            invariant
                0 <= j <= 64,
                n + 64 <= cap,
                cap == self.buf@.len(),
                n + 64 <= self.buf@.len(),
                n == b@.len(),
                b@ == s.spec_bytes(),
                self.buf@.len() == old(self).buf@.len(),
                forall|k: int| 0 <= k < n ==> self.buf@[k] == b@[k],
                forall|k: int| n <= k < n + j ==> self.buf@[k] == 0,
            decreases 64 - j,
        {
            self.buf[n + j] = 0;
            j = j + 1;
        }
        self.len = n;
        proof {
            assert(final(self).contents_spec() =~= s.spec_bytes());
        }
    }
}

impl NullPadded {
    /// The size of the held buffer, the 64-byte zero tail included; this
    /// is what the original source abstraction reports as its length,
    /// since its reader may run into the pad. This parser is
    /// bounds-checked and reads only the logical prefix, so
    /// [`Source::len`] reports the logical length instead.
    pub fn padded_len(&self) -> (r: usize)
        requires
            self.wf(),
        ensures
            r as int == self.held(),
    {
        self.buf.len()
    }
}

impl Source for NullPadded {
    open spec fn contents(&self) -> Seq<u8> {
        self.contents_spec()
    }

    open spec fn wf_source(&self) -> bool {
        self.wf()
    }

    fn bytes(&self) -> (r: &[u8]) {
        vstd::slice::slice_subrange(self.buf.as_slice(), 0, self.len)
    }

    fn len(&self) -> (r: usize) {
        self.len
    }
}

} // verus!

use vstd::prelude::*;
use vstd::slice::slice_to_vec;

verus! {

#[verifier::external_type_specification]
#[verifier::external_body]
pub struct ExBytes(bytes::Bytes);

/// The byte contents of a `bytes::Bytes` handle, front to back.
pub uninterp spec fn bytes_seq(b: bytes::Bytes) -> Seq<u8>;

/// Relies on `Bytes::from(Vec<u8>)`: the new handle holds exactly the
/// vector's bytes.
#[verifier::external_body]
fn bytes_from_vec(v: Vec<u8>) -> (r: bytes::Bytes)
    ensures
        bytes_seq(r) == v@,
{
    bytes::Bytes::from(v)
}

/// Relies on `Bytes`'s `Deref<Target = [u8]>`: the slice is the handle's
/// whole contents.
#[verifier::external_body]
fn bytes_as_slice(b: &bytes::Bytes) -> (r: &[u8])
    ensures
        r@ == bytes_seq(*b),
{
    &b[..]
}

/// Relies on `Bytes::split_to`: afterwards `self` holds elements
/// `[at, len)` and the returned handle holds `[0, at)`; panics if
/// `at > len`, so that case is excluded here.
#[verifier::external_body]
fn bytes_split_to(b: &mut bytes::Bytes, at: usize) -> (r: bytes::Bytes)
    requires
        at <= bytes_seq(*old(b)).len(),
    ensures
        bytes_seq(*final(b)) == bytes_seq(*old(b)).skip(at as int),
        bytes_seq(r) == bytes_seq(*old(b)).take(at as int),
{
    b.split_to(at)
}

/// Relies on `Bytes::clone`: a clone views the same contents.
#[verifier::external_body]
fn bytes_clone(b: &bytes::Bytes) -> (r: bytes::Bytes)
    ensures
        bytes_seq(r) == bytes_seq(*b),
{
    b.clone()
}

/// The contents of each buffer in a queue, in queue order.
pub open spec fn buffer_views(s: Seq<ByteBuffer>) -> Seq<Seq<u8>> {
    s.map_values(|b: ByteBuffer| b@)
}

/// The contents of each byte vector in a list, in order.
pub open spec fn chunk_views(s: Seq<Vec<u8>>) -> Seq<Seq<u8>> {
    s.map_values(|v: Vec<u8>| v@)
}

/// One byte stream out of a queue of buffers, front to back.
pub open spec fn concat_views(s: Seq<Seq<u8>>) -> Seq<u8>
    decreases s.len(),
{
    if s.len() == 0 {
        Seq::<u8>::empty()
    } else {
        s[0] + concat_views(s.skip(1))
    }
}

/// Extending a queue by one buffer appends that buffer's bytes to the
/// concatenated stream.
pub proof fn lemma_concat_views_snoc(s: Seq<Seq<u8>>, j: int)
    requires
        0 <= j < s.len(),
    ensures
        concat_views(s.take(j + 1)) == concat_views(s.take(j)) + s[j],
    decreases j,
{
    if j == 0 {
        assert(s.take(1).skip(1) =~= Seq::<Seq<u8>>::empty());
        assert(s.take(0) =~= Seq::<Seq<u8>>::empty());
        assert(concat_views(Seq::<Seq<u8>>::empty()) == Seq::<u8>::empty());
        assert(s.take(1)[0] == s[0]);
        assert(concat_views(s.take(1)) == s.take(1)[0] + concat_views(s.take(1).skip(1)));
        assert(concat_views(s.take(1)) =~= s[0]);
        assert(concat_views(s.take(0)) + s[0] =~= s[0]);
    } else {
        let t = s.skip(1);
        lemma_concat_views_snoc(t, j - 1);
        assert(s.take(j + 1).skip(1) =~= t.take(j));
        assert(s.take(j).skip(1) =~= t.take(j - 1));
        assert(s.take(j + 1)[0] == s[0]);
        assert(s.take(j)[0] == s[0]);
        assert(t[j - 1] == s[j]);
        assert(concat_views(s.take(j + 1)) == s[0] + concat_views(t.take(j)));
        assert(s[0] + (concat_views(t.take(j - 1)) + s[j]) =~= (s[0] + concat_views(
            t.take(j - 1),
        )) + s[j]);
    }
}

/// Owning, shareable byte container. Supports dropping a prefix without
/// copying the remaining bytes, which carries partially-written buffers
/// across short writes.
pub struct ByteBuffer {
    inner: bytes::Bytes,
}

impl View for ByteBuffer {
    type V = Seq<u8>;

    closed spec fn view(&self) -> Seq<u8> {
        bytes_seq(self.inner)
    }
}

impl Clone for ByteBuffer {
    fn clone(&self) -> (r: Self)
        ensures
            r@ == self@,
    {
        ByteBuffer { inner: bytes_clone(&self.inner) }
    }
}

impl ByteBuffer {
    /// Wrap the vector's bytes.
    pub fn from_vec(v: Vec<u8>) -> (r: ByteBuffer)
        ensures
            r@ == v@,
    {
        ByteBuffer { inner: bytes_from_vec(v) }
    }

    /// Number of bytes held.
    pub fn len(&self) -> (r: usize)
        ensures
            r == self@.len(),
    {
        bytes_as_slice(&self.inner).len()
    }

    /// The held bytes as a slice.
    pub fn as_slice(&self) -> (r: &[u8])
        ensures
            r@ == self@,
    {
        bytes_as_slice(&self.inner)
    }

    /// Copy the held bytes out into a vector.
    pub fn to_vec(&self) -> (r: Vec<u8>)
        ensures
            r@ == self@,
    {
        slice_to_vec(bytes_as_slice(&self.inner))
    }

    /// Drop the first `len` bytes without copying the rest; asking for more
    /// than is held leaves the buffer unchanged.
    pub fn skip(&mut self, len: usize)
        ensures
            final(self)@ == if len <= old(self)@.len() {
                old(self)@.skip(len as int)
            } else {
                old(self)@
            },
    {
        if len <= self.len() {
            let _ = bytes_split_to(&mut self.inner, len);
        }
    }
}

} // verus!

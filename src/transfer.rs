use vstd::prelude::*;

use bytes::BytesMut;

verus! {

/// The largest number of bytes sent as one message over a data channel.
pub const CHUNK_SIZE: usize = 5000000;

/// How many chunks a buffer of `len` bytes splits into.
pub open spec fn chunk_count(len: nat) -> nat {
    ((len + CHUNK_SIZE - 1) / (CHUNK_SIZE as int)) as nat
}

/// The `k`-th chunk of `data`: the bytes from `k * CHUNK_SIZE` up to the next
/// boundary or the end of `data`.
pub open spec fn chunk_at(data: Seq<u8>, k: int) -> Seq<u8> {
    let start = k * CHUNK_SIZE;
    let end = if start + CHUNK_SIZE <= data.len() {
        start + CHUNK_SIZE
    } else {
        data.len() as int
    };
    data.subrange(start, end)
}

/// `data` cut at every `CHUNK_SIZE` boundary, in file order.
pub open spec fn chunks_of(data: Seq<u8>) -> Seq<Seq<u8>> {
    Seq::new(chunk_count(data.len()), |k: int| chunk_at(data, k))
}

/// The bytes of `chunks` laid end to end, in order.
pub open spec fn reassembled(chunks: Seq<Seq<u8>>) -> Seq<u8>
    decreases chunks.len(),
{
    if chunks.len() == 0 {
        Seq::empty()
    } else {
        reassembled(chunks.drop_last()) + chunks.last()
    }
}

/// The views of a sequence of byte vectors.
pub open spec fn byte_views(v: Seq<Vec<u8>>) -> Seq<Seq<u8>> {
    v.map_values(|c: Vec<u8>| c@)
}

proof fn lemma_chunk_prefix(data: Seq<u8>, k: nat)
    requires
        k <= chunk_count(data.len()),
    ensures
        reassembled(chunks_of(data).subrange(0, k as int)) == data.subrange(
            0,
            if k * CHUNK_SIZE <= data.len() {
                k * CHUNK_SIZE
            } else {
                data.len() as int
            },
        ),
    decreases k,
{
    let cs = chunks_of(data).subrange(0, k as int);
    if k == 0 {
        assert(data.subrange(0, 0) =~= Seq::<u8>::empty());
    } else {
        lemma_chunk_prefix(data, (k - 1) as nat);
        assert(cs.drop_last() =~= chunks_of(data).subrange(0, k - 1));
        assert((k - 1) * CHUNK_SIZE < data.len()) by {
            assert(k - 1 < chunk_count(data.len()));
        }
        let start = (k - 1) * CHUNK_SIZE;
        let end = if k * CHUNK_SIZE <= data.len() {
            k * CHUNK_SIZE
        } else {
            data.len() as int
        };
        assert(cs.last() == data.subrange(start, end));
        assert(data.subrange(0, start) + data.subrange(start, end) =~= data.subrange(0, end));
    }
}

/// Splitting a buffer at `CHUNK_SIZE` boundaries and laying the chunks end
/// to end in send order gives back exactly the buffer; no chunk is empty or
/// longer than `CHUNK_SIZE`.
pub proof fn lemma_split_reassemble(data: Seq<u8>)
    ensures
        reassembled(chunks_of(data)) == data,
        forall|k: int|
            0 <= k < chunks_of(data).len() ==> 0 < (#[trigger] chunks_of(data)[k]).len()
                <= CHUNK_SIZE,
{
    let n = chunk_count(data.len());
    lemma_chunk_prefix(data, n);
    assert(chunks_of(data).subrange(0, n as int) =~= chunks_of(data));
    assert(n * CHUNK_SIZE >= data.len());
    assert(data.subrange(0, data.len() as int) =~= data);
    assert forall|k: int| 0 <= k < chunks_of(data).len() implies 0 < (
    #[trigger] chunks_of(data)[k]).len() <= CHUNK_SIZE by {
        assert(k * CHUNK_SIZE < data.len());
    }
}

/// Cuts `contents` into the chunks sent over a data channel, in file order.
pub fn split_into_chunks(contents: &[u8]) -> (r: Vec<Vec<u8>>)
    ensures
        byte_views(r@) == chunks_of(contents@),
{
    let len = contents.len();
    let mut r: Vec<Vec<u8>> = Vec::new();
    let mut start: usize = 0;
    let ghost mut k: int = 0;
    while start < len
        invariant
            len == contents@.len(),
            start < len ==> start == k * CHUNK_SIZE,
            start <= len,
            k == r@.len(),
            start < len ==> k <= chunk_count(len as nat),
            start >= len ==> k == chunk_count(len as nat),
            forall|j: int| 0 <= j < k ==> (#[trigger] r@[j])@ == chunk_at(contents@, j),
        decreases len - start,
    {
        let end = if len - start >= CHUNK_SIZE {
            start + CHUNK_SIZE
        } else {
            len
        };
        let chunk = vstd::slice::slice_to_vec(vstd::slice::slice_subrange(contents, start, end));
        r.push(chunk);
        proof {
            k = k + 1;
        }
        start = end;
    }
    proof {
        assert(byte_views(r@) =~= chunks_of(contents@));
    }
    r
}

/// What a byte buffer of the bytes crate holds.
pub uninterp spec fn buffered(b: BytesMut) -> Seq<u8>;

#[verifier::external_type_specification]
#[verifier::external_body]
pub struct ExBytesMut(BytesMut);

/// Relies on `bytes::BytesMut::new`: a buffer that holds no byte.
#[verifier::external_body]
fn empty_buffer() -> (r: BytesMut)
    ensures
        buffered(r) == Seq::<u8>::empty(),
{
    BytesMut::new()
}

/// Relies on `bytes::BytesMut::extend_from_slice`: the bytes of `data` are
/// appended after those already held.
#[verifier::external_body]
fn extend_buffer(b: &mut BytesMut, data: &[u8])
    ensures
        buffered(*final(b)) == buffered(*old(b)) + data@,
{
    b.extend_from_slice(data)
}

/// Relies on `bytes::BytesMut` dereferencing to the bytes it holds.
#[verifier::external_body]
fn buffer_contents(b: &BytesMut) -> (r: Vec<u8>)
    ensures
        r@ == buffered(*b),
{
    b.to_vec()
}

/// The file a sink receives: where it is to be written, and the bytes
/// received so far, in arrival order.
pub struct File {
    path: String,
    name: String,
    bytes: BytesMut,
}

impl File {
    pub fn new(path: String, name: String) -> (r: File)
        ensures
            r.contents() == Seq::<u8>::empty(),
            r.path()@ == path@,
            r.name()@ == name@,
    {
        File { path, name, bytes: empty_buffer() }
    }

    /// The bytes received so far.
    pub closed spec fn contents(&self) -> Seq<u8> {
        buffered(self.bytes)
    }

    pub closed spec fn path(&self) -> String {
        self.path
    }

    pub closed spec fn name(&self) -> String {
        self.name
    }

    /// Where the file is read from or written to: its directory and its
    /// name joined by a slash.
    pub fn full_path(&self) -> (r: String)
        ensures
            r@ == self.path()@ + "/"@ + self.name()@,
    {
        let r = self.path.clone().concat("/");
        r.concat(self.name.as_str())
    }

    /// Cuts the contents of a file into the chunks sent over a data
    /// channel, in file order.
    pub fn chunkify(contents: &[u8]) -> (r: Vec<Vec<u8>>)
        ensures
            byte_views(r@) == chunks_of(contents@),
    {
        split_into_chunks(contents)
    }

    /// Appends one received message after the bytes received before it.
    pub fn append_bytes(&mut self, bytes: &[u8])
        ensures
            final(self).contents() == old(self).contents() + bytes@,
            final(self).path() == old(self).path(),
            final(self).name() == old(self).name(),
    {
        extend_buffer(&mut self.bytes, bytes)
    }

    /// The completed file: every byte received, in arrival order.
    pub fn build_file(&self) -> (r: Vec<u8>)
        ensures
            r@ == self.contents(),
    {
        buffer_contents(&self.bytes)
    }
}

} // verus!

//! Output that is kept up to a cap.
//!
//! Two readers. [`CappedBuffer`] keeps the first bytes and lets the rest pass,
//! so that whoever writes is never held up. [`CappedReader`] stops reading one
//! byte past the cap: that byte tells a source that ends exactly at the cap
//! from one that goes on.
use vstd::prelude::*;
use vstd::utf8::{decode_utf8, valid_utf8};

verus! {

/// The text that bytes stand for, with a replacement character for what is not
/// UTF-8.
pub uninterp spec fn utf8_lossy(bytes: Seq<u8>) -> Seq<char>;

/// Calls `String::from_utf8_lossy`. Claims that the text is a function of the
/// bytes and that valid UTF-8 is decoded as it is. Where replacement
/// characters go is not said.
#[verifier::external_body]
pub(crate) fn lossy_text(bytes: &Vec<u8>) -> (r: String)
    ensures
        r@ == utf8_lossy(bytes@),
        valid_utf8(bytes@) ==> r@ == decode_utf8(bytes@),
{
    String::from_utf8_lossy(bytes).into_owned()
}

/// The first bytes of `s`, at most `limit` of them.
pub open spec fn first(s: Seq<u8>, limit: nat) -> Seq<u8> {
    if s.len() <= limit {
        s
    } else {
        s.take(limit as int)
    }
}

/// All chunks in one sequence.
pub open spec fn flat(chunks: Seq<Seq<u8>>) -> Seq<u8>
    decreases chunks.len(),
{
    if chunks.len() == 0 {
        Seq::empty()
    } else {
        flat(chunks.drop_last()) + chunks.last()
    }
}

/// The first bytes of a stream, and whether there were more.
#[derive(Debug)]
pub struct CappedBuffer {
    limit: usize,
    bytes: Vec<u8>,
    truncated: bool,
}

/// Mathematical form of a [`CappedBuffer`].
#[verifier::ext_equal]
pub struct CappedView {
    pub limit: nat,
    pub bytes: Seq<u8>,
    pub truncated: bool,
}

impl CappedView {
    /// Nothing received.
    pub open spec fn empty(limit: nat) -> CappedView {
        CappedView { limit, bytes: Seq::empty(), truncated: false }
    }

    /// After one more chunk.
    pub open spec fn feed(self, chunk: Seq<u8>) -> CappedView {
        CappedView {
            bytes: first(self.bytes + chunk, self.limit),
            truncated: self.truncated || self.bytes.len() + chunk.len() > self.limit,
            ..self
        }
    }

    /// After all these chunks.
    pub open spec fn feed_all(self, chunks: Seq<Seq<u8>>) -> CappedView
        decreases chunks.len(),
    {
        if chunks.len() == 0 {
            self
        } else {
            self.feed_all(chunks.drop_last()).feed(chunks.last())
        }
    }
}

impl View for CappedBuffer {
    type V = CappedView;

    closed spec fn view(&self) -> CappedView {
        CappedView { limit: self.limit as nat, bytes: self.bytes@, truncated: self.truncated }
    }
}

/// Appends the first `n` bytes of `chunk`.
fn append_some(bytes: &mut Vec<u8>, chunk: &[u8], n: usize)
    requires
        n <= chunk@.len(),
    ensures
        final(bytes)@ == old(bytes)@ + chunk@.take(n as int),
{
    let ghost before = bytes@;
    let mut i: usize = 0;
    assert(before + chunk@.take(0) =~= before);
    while i < n
        invariant
            i <= n <= chunk@.len(),
            bytes@ == before + chunk@.take(i as int),
        decreases n - i,
    {
        bytes.push(chunk[i]);
        assert(chunk@.take(i + 1) =~= chunk@.take(i as int).push(chunk@[i as int]));
        assert(bytes@ =~= before + chunk@.take(i + 1));
        i = i + 1;
    }
}

impl CappedBuffer {
    /// The cap holds.
    pub closed spec fn wf(&self) -> bool {
        self.bytes@.len() <= self.limit
    }

    /// An empty buffer that keeps at most `limit` bytes.
    pub fn new(limit: usize) -> (r: CappedBuffer)
        ensures
            r.wf(),
            r@ == CappedView::empty(limit as nat),
    {
        CappedBuffer { limit, bytes: Vec::new(), truncated: false }
    }

    /// Takes in a chunk: keeps what fits, drops the rest.
    pub fn feed(&mut self, chunk: &[u8])
        requires
            old(self).wf(),
        ensures
            final(self).wf(),
            final(self)@ == old(self)@.feed(chunk@),
    {
        let room: usize = self.limit - self.bytes.len();
        let n: usize = if chunk.len() <= room {
            chunk.len()
        } else {
            room
        };
        append_some(&mut self.bytes, chunk, n);
        if n < chunk.len() {
            self.truncated = true;
        }
        proof {
            let all = old(self)@.bytes + chunk@;
            assert(chunk@.take(chunk@.len() as int) =~= chunk@);
            assert(self.bytes@ =~= first(all, self.limit as nat));
        }
    }

    /// The bytes that were kept.
    pub fn bytes(&self) -> (r: &Vec<u8>)
        ensures
            r@ == self@.bytes,
    {
        &self.bytes
    }

    /// Whether bytes were dropped.
    pub fn truncated(&self) -> (r: bool)
        ensures
            r == self@.truncated,
    {
        self.truncated
    }
}

/// However a stream is cut into chunks, its first bytes are kept, and it
/// counts as truncated exactly when it was longer than the cap.
pub proof fn capping_ignores_the_chunks(limit: nat, chunks: Seq<Seq<u8>>)
    ensures
        ({
            let c = CappedView::empty(limit).feed_all(chunks);
            &&& c.limit == limit
            &&& c.bytes == first(flat(chunks), limit)
            &&& c.truncated <==> flat(chunks).len() > limit
        }),
    decreases chunks.len(),
{
    if chunks.len() > 0 {
        capping_ignores_the_chunks(limit, chunks.drop_last());
        let before = flat(chunks.drop_last());
        let c = CappedView::empty(limit).feed_all(chunks);
        assert(c.bytes =~= first(before + chunks.last(), limit));
    }
}

/// What one read past the cap gave, cut to the cap.
#[derive(Debug)]
pub struct Clipped {
    pub bytes: Vec<u8>,
    pub truncated: bool,
}

/// Cuts bytes to the cap; they were truncated when there were more.
pub fn clip(bytes: Vec<u8>, limit: usize) -> (r: Clipped)
    ensures
        r.bytes@ == first(bytes@, limit as nat),
        r.truncated == (bytes@.len() > limit),
{
    let truncated: bool = bytes.len() > limit;
    let mut bytes = bytes;
    bytes.truncate(limit);
    Clipped { bytes, truncated }
}

/// Reads up to one byte past a cap.
#[derive(Debug)]
pub struct CappedReader {
    limit: usize,
    bytes: Vec<u8>,
}

/// Mathematical form of a [`CappedReader`].
#[verifier::ext_equal]
pub struct ReaderView {
    pub limit: nat,
    pub bytes: Seq<u8>,
}

impl View for CappedReader {
    type V = ReaderView;

    closed spec fn view(&self) -> ReaderView {
        ReaderView { limit: self.limit as nat, bytes: self.bytes@ }
    }
}

impl ReaderView {
    /// Whether no more needs to be read.
    pub open spec fn full(self) -> bool {
        self.bytes.len() > self.limit
    }

    /// After one more chunk.
    pub open spec fn feed(self, chunk: Seq<u8>) -> ReaderView {
        ReaderView { bytes: first(self.bytes + chunk, self.limit + 1), ..self }
    }

    /// After chunks have been read until the reader was full.
    pub open spec fn read_all(self, chunks: Seq<Seq<u8>>) -> ReaderView
        decreases chunks.len(),
    {
        if chunks.len() == 0 || self.full() {
            self
        } else {
            self.feed(chunks[0]).read_all(chunks.skip(1))
        }
    }
}

impl CappedReader {
    /// The cap holds.
    pub closed spec fn wf(&self) -> bool {
        self.limit < usize::MAX && self.bytes@.len() <= self.limit + 1
    }

    /// A reader with the cap `limit`.
    pub fn new(limit: usize) -> (r: CappedReader)
        requires
            limit < usize::MAX,
        ensures
            r.wf(),
            r@ == (ReaderView { limit: limit as nat, bytes: Seq::empty() }),
    {
        CappedReader { limit, bytes: Vec::new() }
    }

    /// Takes in a chunk and says whether to stop reading.
    pub fn feed(&mut self, chunk: &[u8]) -> (r: bool)
        requires
            old(self).wf(),
        ensures
            final(self).wf(),
            final(self)@ == old(self)@.feed(chunk@),
            r == final(self)@.full(),
    {
        let need: usize = self.limit + 1 - self.bytes.len();
        let n: usize = if chunk.len() >= need {
            need
        } else {
            chunk.len()
        };
        append_some(&mut self.bytes, chunk, n);
        proof {
            let all = old(self)@.bytes + chunk@;
            assert(chunk@.take(chunk@.len() as int) =~= chunk@);
            assert(self.bytes@ =~= first(all, (self.limit + 1) as nat));
        }
        self.bytes.len() > self.limit
    }

    /// What was read, cut to the cap.
    pub fn finish(self) -> (r: Clipped)
        ensures
            r.bytes@ == first(self@.bytes, self@.limit),
            r.truncated == self@.full(),
    {
        clip(self.bytes, self.limit)
    }
}

/// Reading up to one byte past the cap gives the first bytes of the source and
/// tells exactly whether it was longer, also when it ends at the cap.
pub proof fn reading_stops_past_the_cap(r: ReaderView, chunks: Seq<Seq<u8>>)
    requires
        r.bytes.len() <= r.limit + 1,
    ensures
        ({
            let end = r.read_all(chunks);
            let source = r.bytes + flat(chunks);
            &&& end.limit == r.limit
            &&& first(end.bytes, r.limit) == first(source, r.limit)
            &&& end.full() <==> source.len() > r.limit
            &&& end.bytes.len() <= r.limit + 1
        }),
    decreases chunks.len(),
{
    let source = r.bytes + flat(chunks);
    if chunks.len() == 0 {
        assert(source =~= r.bytes);
    } else if r.full() {
        assert(first(r.bytes, r.limit) =~= first(source, r.limit));
    } else {
        let next = r.feed(chunks[0]);
        let rest = chunks.skip(1);
        reading_stops_past_the_cap(next, rest);
        flat_first(chunks);
        let all = r.bytes + chunks[0];
        let later = next.bytes + flat(rest);
        if all.len() <= r.limit + 1 {
            assert(later =~= source);
        } else {
            assert(first(later, r.limit) =~= first(source, r.limit));
        }
    }
}

proof fn flat_first(chunks: Seq<Seq<u8>>)
    requires
        chunks.len() > 0,
    ensures
        flat(chunks) == chunks[0] + flat(chunks.skip(1)),
    decreases chunks.len(),
{
    if chunks.len() == 1 {
        assert(chunks.drop_last() =~= Seq::empty());
        assert(chunks.skip(1) =~= Seq::empty());
        assert(flat(chunks) =~= chunks[0] + flat(chunks.skip(1)));
    } else {
        flat_first(chunks.drop_last());
        assert(chunks.drop_last().skip(1) =~= chunks.skip(1).drop_last());
        assert(flat(chunks) =~= chunks[0] + flat(chunks.skip(1)));
    }
}

} // verus!

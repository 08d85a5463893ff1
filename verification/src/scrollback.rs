//! Scrollback: a memory-capped queue of the lines that left the screen.
//!
//! Lines are stored in the byte format of `sbcodec`, packed into chunks of
//! 32 KiB. When the memory cap is exceeded, the oldest chunk goes, with all
//! the lines in it.

use crate::line::{Line, LineModel};
use crate::sbcodec::MemSBLine;
use std::collections::VecDeque;
use vstd::prelude::*;

verus! {

/// The size of a chunk, unless a single line needs more.
pub const CHUNK_SIZE: usize = 32768;
/// Bookkeeping that is accounted to every chunk, in bytes.
pub const CHUNK_OVERHEAD: usize = 32;
/// Bookkeeping that is accounted to every line, in bytes.
pub const LINE_OVERHEAD: usize = 16;

/// A chunk as a mathematical value.
pub struct ChunkModel {
    /// The bytes of all lines in the chunk, back to back.
    pub data: Seq<u8>,
    /// Where each line starts.
    pub starts: Seq<usize>,
    /// The room that the chunk has for data.
    pub cap: nat,
}

impl ChunkModel {
    pub open spec fn wf(self) -> bool {
        &&& self.starts.len() >= 1
        &&& self.starts[0] == 0
        &&& forall|i: int, j: int|
            0 <= i <= j < self.starts.len() ==> self.starts[i] <= self.starts[j]
        &&& self.starts.last() <= self.data.len()
        &&& self.data.len() <= self.cap
        &&& self.cap <= usize::MAX
    }

    /// Where line `k` ends.
    pub open spec fn end(self, k: int) -> int {
        if k + 1 < self.starts.len() {
            self.starts[k + 1] as int
        } else {
            self.data.len() as int
        }
    }

    /// The bytes of line `k`.
    pub open spec fn line(self, k: int) -> Seq<u8> {
        self.data.subrange(self.starts[k] as int, self.end(k))
    }

    /// The lines of the chunk, oldest first.
    pub open spec fn lines(self) -> Seq<Seq<u8>> {
        Seq::new(self.starts.len(), |k: int| self.line(k))
    }

    /// The room that is left for data.
    pub open spec fn free(self) -> int {
        self.cap - self.data.len()
    }

    /// The memory accounted to the chunk.
    pub open spec fn mem(self) -> nat {
        self.cap + CHUNK_OVERHEAD as nat + LINE_OVERHEAD as nat * self.starts.len()
    }

    /// A fresh chunk that holds one line.
    pub open spec fn first(bytes: Seq<u8>) -> ChunkModel {
        ChunkModel {
            data: bytes,
            starts: seq![0usize],
            cap: if bytes.len() > CHUNK_SIZE {
                bytes.len()
            } else {
                CHUNK_SIZE as nat
            },
        }
    }

    /// The chunk with one more line at its end.
    pub open spec fn append(self, bytes: Seq<u8>) -> ChunkModel {
        ChunkModel {
            data: self.data + bytes,
            starts: self.starts.push(self.data.len() as usize),
            cap: self.cap,
        }
    }
}

/// The memory accounted to a sequence of chunks.
pub open spec fn chunks_mem(chunks: Seq<ChunkModel>) -> nat
    decreases chunks.len(),
{
    if chunks.len() == 0 {
        0
    } else {
        chunks[0].mem() + chunks_mem(chunks.drop_first())
    }
}

/// The number of lines in a sequence of chunks.
pub open spec fn chunks_count(chunks: Seq<ChunkModel>) -> nat
    decreases chunks.len(),
{
    if chunks.len() == 0 {
        0
    } else {
        chunks[0].starts.len() + chunks_count(chunks.drop_first())
    }
}

/// The lines in a sequence of chunks, oldest first.
pub open spec fn chunks_lines(chunks: Seq<ChunkModel>) -> Seq<Seq<u8>>
    decreases chunks.len(),
{
    if chunks.len() == 0 {
        Seq::empty()
    } else {
        chunks_lines(chunks.drop_last()) + chunks.last().lines()
    }
}

/// The scrollback as a mathematical value.
pub struct ScrollbackModel {
    /// The chunks, oldest first.
    pub chunks: Seq<ChunkModel>,
    /// The memory cap in bytes.
    pub mem_cap: nat,
}

impl ScrollbackModel {
    pub open spec fn empty(mem_cap: nat) -> ScrollbackModel {
        ScrollbackModel { chunks: Seq::empty(), mem_cap }
    }

    /// The memory that the scrollback accounts for: for every chunk its room
    /// and its overhead, and for every line its overhead.
    pub open spec fn mem_size(self) -> nat {
        chunks_mem(self.chunks)
    }

    /// The stored lines as bytes, oldest first.
    pub open spec fn lines(self) -> Seq<Seq<u8>> {
        chunks_lines(self.chunks)
    }

    pub open spec fn len(self) -> nat {
        chunks_count(self.chunks)
    }

    /// The pieces of the stored line `k`.
    pub open spec fn pieces(self, k: int) -> Seq<crate::sbcodec::PieceModel> {
        crate::sbcodec::spec_decode_line(self.lines()[k])
    }

    /// The scrollback with one more line, before anything is evicted: the
    /// line goes into the newest chunk if it fits there, else into a new one.
    pub open spec fn appended(self, bytes: Seq<u8>) -> ScrollbackModel {
        if self.chunks.len() > 0 && bytes.len() <= self.chunks.last().free() {
            ScrollbackModel {
                chunks: self.chunks.drop_last().push(self.chunks.last().append(bytes)),
                mem_cap: self.mem_cap,
            }
        } else {
            ScrollbackModel {
                chunks: self.chunks.push(ChunkModel::first(bytes)),
                mem_cap: self.mem_cap,
            }
        }
    }

    /// The scrollback after eviction: while it is over its cap, the oldest
    /// chunk goes.
    pub open spec fn evicted(self) -> ScrollbackModel
        decreases self.chunks.len(),
    {
        if self.mem_size() > self.mem_cap && self.chunks.len() > 0 {
            (ScrollbackModel { chunks: self.chunks.drop_first(), mem_cap: self.mem_cap }).evicted()
        } else {
            self
        }
    }

    /// The scrollback after a line was pushed.
    pub open spec fn push(self, line: LineModel) -> ScrollbackModel {
        self.appended(crate::sbcodec::spec_encode_line(line.cells)).evicted()
    }

    /// The scrollback after its cap was set.
    pub open spec fn set_mem_cap(self, mem_cap: nat) -> ScrollbackModel {
        (ScrollbackModel { chunks: self.chunks, mem_cap }).evicted()
    }

    pub open spec fn wf(self) -> bool {
        &&& forall|i: int| 0 <= i < self.chunks.len() ==> (#[trigger] self.chunks[i]).wf()
        &&& self.mem_size() <= self.mem_cap
        &&& self.mem_cap <= usize::MAX
    }
}

pub proof fn lemma_chunks_push(chunks: Seq<ChunkModel>, chunk: ChunkModel)
    ensures
        chunks_mem(chunks.push(chunk)) == chunks_mem(chunks) + chunk.mem(),
        chunks_count(chunks.push(chunk)) == chunks_count(chunks) + chunk.starts.len(),
    decreases chunks.len(),
{
    if chunks.len() == 0 {
        assert(chunks.push(chunk).drop_first() =~= Seq::<ChunkModel>::empty());
        assert(chunks_mem(chunks.push(chunk).drop_first()) == 0);
        assert(chunks_count(chunks.push(chunk).drop_first()) == 0);
    } else {
        lemma_chunks_push(chunks.drop_first(), chunk);
        assert(chunks.push(chunk).drop_first() =~= chunks.drop_first().push(chunk));
    }
}

/// Every line costs its overhead.
pub proof fn lemma_count_le_mem(chunks: Seq<ChunkModel>)
    ensures
        LINE_OVERHEAD * chunks_count(chunks) <= chunks_mem(chunks),
    decreases chunks.len(),
{
    if chunks.len() > 0 {
        lemma_count_le_mem(chunks.drop_first());
        assert(LINE_OVERHEAD * chunks_count(chunks) == LINE_OVERHEAD * chunks[0].starts.len()
            + LINE_OVERHEAD * chunks_count(chunks.drop_first())) by (nonlinear_arith)
            requires
                chunks_count(chunks) == chunks[0].starts.len() + chunks_count(
                    chunks.drop_first(),
                ),
        ;
    }
}

/// The stored lines are as many as the chunks count.
pub proof fn lemma_lines_len(chunks: Seq<ChunkModel>)
    ensures
        chunks_lines(chunks).len() == chunks_count(chunks),
    decreases chunks.len(),
{
    if chunks.len() > 0 {
        lemma_lines_len(chunks.drop_last());
        lemma_chunks_push(chunks.drop_last(), chunks.last());
        assert(chunks.drop_last().push(chunks.last()) =~= chunks);
    }
}

/// After eviction the scrollback is within its cap, or empty.
pub proof fn lemma_evicted(v: ScrollbackModel)
    requires
        forall|i: int| 0 <= i < v.chunks.len() ==> (#[trigger] v.chunks[i]).wf(),
        v.mem_cap <= usize::MAX,
    ensures
        v.evicted().wf(),
        v.evicted().mem_cap == v.mem_cap,
        v.evicted().mem_size() <= v.mem_cap,
    decreases v.chunks.len(),
{
    if v.mem_size() > v.mem_cap && v.chunks.len() > 0 {
        let next = ScrollbackModel { chunks: v.chunks.drop_first(), mem_cap: v.mem_cap };
        assert(forall|i: int| 0 <= i < next.chunks.len() ==> next.chunks[i] == v.chunks[i + 1]);
        lemma_evicted(next);
    }
}

/// A stretch of the scrollback's memory that holds lines.
#[derive(Debug)]
pub struct Chunk {
    data: Vec<u8>,
    cap: usize,
    starts: Vec<usize>,
}

impl View for Chunk {
    type V = ChunkModel;

    closed spec fn view(&self) -> ChunkModel {
        ChunkModel { data: self.data@, starts: self.starts@, cap: self.cap as nat }
    }
}

/// Appends the bytes of `src` to `dst`.
fn append_bytes(dst: &mut Vec<u8>, src: &Vec<u8>)
    ensures
        final(dst)@ == old(dst)@ + src@,
{
    let mut i: usize = 0;
    proof {
        assert(old(dst)@ + src@.take(0) =~= old(dst)@);
    }
    while i < src.len()
        invariant
            i <= src.len(),
            dst@ == old(dst)@ + src@.take(i as int),
        decreases src.len() - i,
    {
        dst.push(src[i]);
        proof {
            assert(old(dst)@ + src@.take(i as int + 1) =~= (old(dst)@ + src@.take(
                i as int,
            )).push(src@[i as int]));
        }
        i += 1;
    }
    proof {
        assert(src@.take(i as int) =~= src@);
    }
}

impl Chunk {
    /// A fresh chunk that holds one line.
    fn new(bytes: &Vec<u8>) -> (c: Chunk)
        ensures
            c@ == ChunkModel::first(bytes@),
            c@.wf(),
    {
        let mut data: Vec<u8> = Vec::with_capacity(CHUNK_SIZE);
        append_bytes(&mut data, bytes);
        let cap = if bytes.len() > CHUNK_SIZE {
            bytes.len()
        } else {
            CHUNK_SIZE
        };
        let mut starts: Vec<usize> = Vec::new();
        starts.push(0);
        proof {
            assert(data@ =~= bytes@);
            assert(starts@ =~= seq![0usize]);
        }
        Chunk { data, cap, starts }
    }

    /// The room that is left for data.
    fn free(&self) -> (r: usize)
        requires
            self@.wf(),
        ensures
            r == self@.free(),
    {
        self.cap - self.data.len()
    }

    /// Stores one more line at the end of the chunk.
    fn append(&mut self, bytes: &Vec<u8>)
        requires
            old(self)@.wf(),
            bytes@.len() <= old(self)@.free(),
        ensures
            final(self)@ == old(self)@.append(bytes@),
            final(self)@.wf(),
    {
        let at = self.data.len();
        self.starts.push(at);
        append_bytes(&mut self.data, bytes);
    }

    fn count(&self) -> (r: usize)
        ensures
            r == self@.starts.len(),
    {
        self.starts.len()
    }

    /// The memory accounted to the chunk.
    fn mem(&self) -> (r: u128)
        ensures
            r == self@.mem(),
    {
        self.cap as u128 + CHUNK_OVERHEAD as u128 + LINE_OVERHEAD as u128
            * self.starts.len() as u128
    }

    /// A handle on line `k` of the chunk.
    fn line<'a>(&'a self, k: usize) -> (l: MemSBLine<'a>)
        requires
            self@.wf(),
            k < self@.starts.len(),
        ensures
            l.wf(),
            l@ == self@.line(k as int),
            l.spec_offset() == self@.starts[k as int],
    {
        let start = self.starts[k];
        let end = if k < self.starts.len() - 1 {
            self.starts[k + 1]
        } else {
            self.data.len()
        };
        MemSBLine::at(&self.data, start, end)
    }
}

/// Gives back what a queue of chunks has in reserve, with
/// `VecDeque::shrink_to_fit` of the standard library.
///
/// Trusted: the queue holds the same chunks afterwards.
#[verifier::external_body]
fn shrink_chunks(chunks: &mut VecDeque<Chunk>)
    ensures
        final(chunks)@ == old(chunks)@,
{
    chunks.shrink_to_fit()
}

/// The models of a sequence of chunks.
pub closed spec fn chunks_view(chunks: Seq<Chunk>) -> Seq<ChunkModel> {
    Seq::new(chunks.len(), |i: int| chunks[i]@)
}

/// A memory-backed scrollback.
///
/// Every line is right-trimmed of its empty cells and broken down into pieces,
/// parts in which all characters share one `Style`, so that style data is only
/// stored where it changes along the line.
#[derive(Debug)]
pub struct MemScrollback {
    chunks: VecDeque<Chunk>,
    count: usize,
    mem: usize,
    mem_cap: usize,
}

impl View for MemScrollback {
    type V = ScrollbackModel;

    closed spec fn view(&self) -> ScrollbackModel {
        ScrollbackModel { chunks: chunks_view(self.chunks@), mem_cap: self.mem_cap as nat }
    }
}

impl MemScrollback {
    /// Whether the counters agree with what is stored.
    pub closed spec fn counted(&self) -> bool {
        &&& self.mem == self@.mem_size()
        &&& self.count == self@.len()
    }

    /// The invariant: the bookkeeping is right and the memory cap is kept.
    pub open spec fn wf(&self) -> bool {
        &&& self@.wf()
        &&& self.counted()
    }

    /// A new `MemScrollback` that accounts for at most `mem_cap` bytes.
    pub fn new(mem_cap: usize) -> (s: MemScrollback)
        ensures
            s.wf(),
            s@ == ScrollbackModel::empty(mem_cap as nat),
    {
        let s = MemScrollback { chunks: VecDeque::new(), count: 0, mem: 0, mem_cap };
        proof {
            assert(s@.chunks =~= Seq::<ChunkModel>::empty());
        }
        s
    }

    /// The memory that the scrollback accounts for.
    pub fn mem_size(&self) -> (r: usize)
        requires
            self.wf(),
        ensures
            r == self@.mem_size(),
            r <= self@.mem_cap,
    {
        self.mem
    }

    /// Evicts the oldest chunks until the accounted memory `total` is within
    /// the cap or nothing is left. `count` is the number of lines.
    fn pop_over_cap(&mut self, total: u128, count: u128)
        requires
            forall|i: int|
                0 <= i < old(self)@.chunks.len() ==> (#[trigger] old(self)@.chunks[i]).wf(),
            total == old(self)@.mem_size(),
            count == old(self)@.len(),
        ensures
            final(self).wf(),
            final(self)@ == old(self)@.evicted(),
    {
        let mut total = total;
        let mut count = count;
        let mut half = self.chunks.len() / 2;
        while total > self.mem_cap as u128 && self.chunks.len() > 0
            invariant
                forall|i: int| 0 <= i < self@.chunks.len() ==> (#[trigger] self@.chunks[i]).wf(),
                total == self@.mem_size(),
                count == self@.len(),
                self@.evicted() == old(self)@.evicted(),
                self@.mem_cap == old(self)@.mem_cap,
            decreases self.chunks.len(),
        {
            let ghost before = self@;
            let front = self.chunks.pop_front();
            proof {
                assert(self@.chunks =~= before.chunks.drop_first());
                assert(forall|i: int|
                    0 <= i < self@.chunks.len() ==> self@.chunks[i] == before.chunks[i + 1]);
            }
            match front {
                Some(chunk) => {
                    total = total - chunk.mem();
                    count = count - chunk.count() as u128;
                },
                None => {},
            }
            if self.chunks.len() <= half {
                shrink_chunks(&mut self.chunks);
                half = self.chunks.len() / 2;
            }
        }
        proof {
            lemma_evicted(self@);
            lemma_count_le_mem(self@.chunks);
        }
        self.mem = total as usize;
        self.count = count as usize;
    }

    /// Pushes a line into the scrollback.
    pub fn push(&mut self, line: Line)
        requires
            old(self).wf(),
        ensures
            final(self).wf(),
            final(self)@ == old(self)@.push(line@),
            final(self)@.mem_size() <= final(self)@.mem_cap,
    {
        let mut bytes: Vec<u8> = Vec::new();
        MemSBLine::encode_line(&line, &mut bytes);
        proof {
            assert(bytes@ =~= crate::sbcodec::spec_encode_line(line@.cells));
            lemma_count_le_mem(self@.chunks);
        }
        let ghost before = self@;
        let mut total: u128 = self.mem as u128;
        let count: u128 = self.count as u128 + 1;
        // Encode the line into the newest chunk, or into a new one
        let newest = self.chunks.pop_back();
        proof {
            if before.chunks.len() > 0 {
                assert(self@.chunks =~= before.chunks.drop_last());
            }
        }
        let ghost init = self@.chunks;
        match newest {
            Some(mut chunk) => {
                proof {
                    assert(chunk@ == before.chunks.last());
                    assert(before.chunks =~= init.push(chunk@));
                    lemma_chunks_push(init, chunk@);
                }
                if bytes.len() <= chunk.free() {
                    chunk.append(&bytes);
                    total = total + LINE_OVERHEAD as u128;
                    proof {
                        lemma_chunks_push(init, chunk@);
                    }
                    let ghost added = chunk@;
                    self.chunks.push_back(chunk);
                    proof {
                        assert(self@.chunks =~= init.push(added));
                    }
                } else {
                    let ghost kept = chunk@;
                    self.chunks.push_back(chunk);
                    let fresh = Chunk::new(&bytes);
                    total = total + fresh.mem();
                    proof {
                        assert(self@.chunks =~= before.chunks);
                        lemma_chunks_push(before.chunks, fresh@);
                    }
                    let ghost added = fresh@;
                    self.chunks.push_back(fresh);
                    proof {
                        assert(self@.chunks =~= before.chunks.push(added));
                    }
                }
            },
            None => {
                let fresh = Chunk::new(&bytes);
                total = total + fresh.mem();
                proof {
                    assert(self@.chunks =~= before.chunks);
                    lemma_chunks_push(before.chunks, fresh@);
                }
                let ghost added = fresh@;
                self.chunks.push_back(fresh);
                proof {
                    assert(self@.chunks =~= before.chunks.push(added));
                }
            },
        }
        proof {
            assert(self@ == before.appended(bytes@));
            assert forall|i: int| 0 <= i < self@.chunks.len() implies (
            #[trigger] self@.chunks[i]).wf() by {
                if i < before.chunks.len() - 1 {
                    assert(self@.chunks[i] == before.chunks[i]);
                }
            }
        }
        self.pop_over_cap(total, count);
    }

    /// Number of lines in the scrollback.
    pub fn len(&self) -> (n: usize)
        requires
            self.wf(),
        ensures
            n == self@.len(),
            n == self@.lines().len(),
    {
        proof {
            lemma_lines_len(self@.chunks);
        }
        self.count
    }

    /// Sets the memory cap in bytes, and evicts what is over it.
    pub fn set_mem_cap(&mut self, mem_cap: usize)
        requires
            old(self).wf(),
        ensures
            final(self).wf(),
            final(self)@ == old(self)@.set_mem_cap(mem_cap as nat),
    {
        self.mem_cap = mem_cap;
        let total = self.mem as u128;
        let count = self.count as u128;
        self.pop_over_cap(total, count);
    }

    /// The stored lines from line `at` on, oldest first.
    pub fn iter_at<'a>(&'a self, at: usize) -> (r: Vec<MemSBLine<'a>>)
        requires
            self.wf(),
        ensures
            r@.len() == (if at <= self@.lines().len() {
                self@.lines().len() - at
            } else {
                0
            }),
            forall|k: int|
                0 <= k < r@.len() ==> (#[trigger] r@[k]).wf() && r@[k]@ == self@.lines()[at + k],
    {
        let mut res: Vec<MemSBLine<'a>> = Vec::new();
        let mut seen: usize = 0;
        let mut i: usize = 0;
        proof {
            assert(self@.chunks.take(0) =~= Seq::<ChunkModel>::empty());
            lemma_lines_len(self@.chunks);
        }
        while i < self.chunks.len()
            invariant
                i <= self.chunks.len(),
                self.wf(),
                seen == chunks_lines(self@.chunks.take(i as int)).len(),
                seen <= self@.lines().len(),
                self@.lines().len() <= usize::MAX,
                res@.len() == (if at <= seen {
                    seen - at
                } else {
                    0
                }),
                forall|k: int|
                    0 <= k < res@.len() ==> (#[trigger] res@[k]).wf() && res@[k]@ == chunks_lines(
                        self@.chunks.take(i as int),
                    )[at + k],
            decreases self.chunks.len() - i,
        {
            let chunk = &self.chunks[i];
            let ghost done = chunks_lines(self@.chunks.take(i as int));
            proof {
                assert(self@.chunks.take(i as int + 1).drop_last() =~= self@.chunks.take(i as int));
                assert(self@.chunks.take(i as int + 1).last() == chunk@);
                assert(chunk@ == self@.chunks[i as int]);
                lemma_lines_prefix(self@.chunks, i as int + 1);
                assert(chunks_lines(self@.chunks.take(i as int + 1)) == done + chunk@.lines());
            }
            let n = chunk.count();
            let mut k: usize = 0;
            while k < n
                invariant
                    k <= n,
                    n == chunk@.starts.len(),
                    chunk@.wf(),
                    seen == done.len() + k,
                    seen <= done.len() + n,
                    done.len() + n <= usize::MAX,
                    res@.len() == (if at <= seen {
                        seen - at
                    } else {
                        0
                    }),
                    forall|j: int|
                        0 <= j < res@.len() ==> (#[trigger] res@[j]).wf() && res@[j]@ == (done
                            + chunk@.lines())[at + j],
                decreases n - k,
            {
                if seen >= at {
                    let line = chunk.line(k);
                    res.push(line);
                }
                seen += 1;
                k += 1;
            }
            i += 1;
        }
        proof {
            assert(self@.chunks.take(i as int) =~= self@.chunks);
        }
        res
    }

    /// All stored lines, oldest first.
    pub fn iter<'a>(&'a self) -> (r: Vec<MemSBLine<'a>>)
        requires
            self.wf(),
        ensures
            r@.len() == self@.lines().len(),
            r@.len() == self@.len(),
            forall|k: int|
                0 <= k < r@.len() ==> (#[trigger] r@[k]).wf() && r@[k]@ == self@.lines()[k],
    {
        proof {
            lemma_lines_len(self@.chunks);
        }
        self.iter_at(0)
    }
}

/// The lines of the first chunks are the first lines.
pub proof fn lemma_lines_prefix(chunks: Seq<ChunkModel>, n: int)
    requires
        0 <= n <= chunks.len(),
    ensures
        chunks_lines(chunks.take(n)).len() <= chunks_lines(chunks).len(),
        forall|k: int|
            0 <= k < chunks_lines(chunks.take(n)).len() ==> #[trigger] chunks_lines(
                chunks.take(n),
            )[k] == chunks_lines(chunks)[k],
    decreases chunks.len() - n,
{
    if n == chunks.len() {
        assert(chunks.take(n) =~= chunks);
    } else {
        lemma_lines_prefix(chunks, n + 1);
        assert(chunks.take(n + 1).drop_last() =~= chunks.take(n));
        let short = chunks_lines(chunks.take(n));
        let long = chunks_lines(chunks.take(n + 1));
        assert(long == short + chunks.take(n + 1).last().lines());
        assert forall|k: int| 0 <= k < short.len() implies #[trigger] short[k] == chunks_lines(
            chunks,
        )[k] by {
            assert(short[k] == long[k]);
        }
    }
}

impl Default for MemScrollback {
    /// A scrollback with a cap of 20 MiB.
    fn default() -> (s: MemScrollback)
        ensures
            s.wf(),
            s@ == ScrollbackModel::empty(20971520),
    {
        MemScrollback::new(20971520)
    }
}

} // verus!

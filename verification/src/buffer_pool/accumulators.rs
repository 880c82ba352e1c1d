//! Accumulators that collect the bytes of encoded packets.
use std::collections::VecDeque;
use vstd::prelude::*;

use crate::buffer_pool::{Error, Owned, Shared};

verus! {

/// A sink for bytes.
///
/// Bytes can be appended by copying them (`try_put_slice`), which needs room in the
/// accumulator, or by handing over a whole [`Shared`] (`put_shared`), which does not copy.
pub trait BytesAccumulator {
    /// Whether the internal bookkeeping of the accumulator is consistent.
    spec fn wf(&self) -> bool;

    /// All bytes accumulated so far, in order.
    spec fn contents(&self) -> Seq<u8>;

    /// How many more bytes this accumulator can take.
    spec fn spare(&self) -> nat;

    /// The most bytes that `reserve` can make room for.
    spec fn room(&self) -> nat;

    /// Whether the accumulator is willing to take another packet.
    spec fn accepts_more(&self) -> bool;

    /// The bytes of the packet being written that are not yet marked done.
    spec fn unfinished(&self) -> Seq<u8>;

    /// Returns [`BytesAccumulator::spare`].
    fn spare_len(&self) -> (r: usize)
        requires
            self.wf(),
        ensures
            r == self.spare(),
    ;

    /// Whether the accumulator is willing to take another packet.
    fn can_accept_more(&self) -> (r: bool)
        ensures
            r == self.accepts_more(),
    ;

    /// Makes room for at least `additional` more bytes; it fails exactly when that is more
    /// than the accumulator can ever hold beyond what it holds.
    fn reserve(&mut self, additional: usize) -> (r: Result<(), Error>)
        requires
            old(self).wf(),
        ensures
            final(self).wf(),
            final(self).contents() == old(self).contents(),
            final(self).room() == old(self).room(),
            final(self).unfinished() == old(self).unfinished(),
            final(self).accepts_more() == old(self).accepts_more(),
            r is Ok <==> additional <= old(self).room(),
            r is Ok ==> final(self).spare() >= additional,
            r is Err ==> final(self).spare() == old(self).spare(),
    ;

    /// The room left is all that `usize` can count beyond what is accumulated, and what is
    /// spare is never more.
    proof fn lemma_room(&self)
        requires
            self.wf(),
        ensures
            self.room() == usize::MAX - self.contents().len(),
            self.spare() <= self.room(),
    ;

    /// Copies `src` into the accumulator, or returns `None` if there is not enough room.
    fn try_put_slice(&mut self, src: &[u8]) -> (r: Option<()>)
        requires
            old(self).wf(),
        ensures
            final(self).wf(),
            r is Some <==> src@.len() <= old(self).spare(),
            r is Some ==> final(self).contents() == old(self).contents() + src@ && final(self).spare()
                == old(self).spare() - src@.len() && final(self).room() == old(self).room()
                - src@.len(),
            r is None ==> final(self).contents() == old(self).contents() && final(self).spare()
                == old(self).spare() && final(self).room() == old(self).room(),
    ;

    /// Appends the bytes of `src` without copying them, whatever is spare; only the total
    /// number of bytes accumulated must stay countable.
    fn put_shared(&mut self, src: Shared)
        requires
            old(self).wf(),
            src@.len() <= old(self).room(),
        ensures
            final(self).wf(),
            final(self).contents() == old(self).contents() + src@,
            final(self).spare() == if old(self).spare() + src@.len() <= old(self).room() {
                old(self).spare()
            } else {
                (old(self).room() - src@.len()) as nat
            },
            final(self).spare() >= old(self).spare() - src@.len(),
            final(self).room() == old(self).room() - src@.len(),
    ;

    /// Marks the end of a packet: its bytes are no longer unfinished.
    fn put_done(&mut self)
        requires
            old(self).wf(),
        ensures
            final(self).wf(),
            final(self).contents() == old(self).contents(),
            final(self).spare() == old(self).spare(),
            final(self).room() == old(self).room(),
            final(self).unfinished() == Seq::<u8>::empty(),
    ;

    /// Whether nothing has been accumulated.
    fn is_empty(&self) -> (r: bool)
        requires
            self.wf(),
        ensures
            r == (self.contents().len() == 0),
    ;
}

/// Appends one byte to `dst`, or returns `None` if there is no room.
pub fn try_put_u8<B: BytesAccumulator>(dst: &mut B, v: u8) -> (r: Option<()>)
    requires
        old(dst).wf(),
    ensures
        final(dst).wf(),
        r is Some <==> 1 <= old(dst).spare(),
        r is Some ==> final(dst).contents() == old(dst).contents().push(v) && final(dst).spare()
            == old(dst).spare() - 1 && final(dst).room() == old(dst).room() - 1,
        r is None ==> final(dst).contents() == old(dst).contents() && final(dst).spare()
            == old(dst).spare() && final(dst).room() == old(dst).room(),
{
    let a = [v];
    let r = dst.try_put_slice(&a);
    proof {
        assert(a@ =~= seq![v]);
        assert(old(dst).contents() + seq![v] =~= old(dst).contents().push(v));
    }
    r
}

/// Appends a big-endian `u16` to `dst`, or returns `None` if there is no room.
pub fn try_put_u16_be<B: BytesAccumulator>(dst: &mut B, v: u16) -> (r: Option<()>)
    requires
        old(dst).wf(),
    ensures
        final(dst).wf(),
        r is Some <==> 2 <= old(dst).spare(),
        r is Some ==> final(dst).contents() == old(dst).contents() + crate::buffer_pool::u16_be_bytes(v)
            && final(dst).spare() == old(dst).spare() - 2 && final(dst).room() == old(dst).room() - 2,
        r is None ==> final(dst).contents() == old(dst).contents() && final(dst).spare()
            == old(dst).spare() && final(dst).room() == old(dst).room(),
{
    let a = [(v / 256) as u8, (v % 256) as u8];
    let r = dst.try_put_slice(&a);
    proof {
        assert(a@ =~= crate::buffer_pool::u16_be_bytes(v));
    }
    r
}

/// Appends a big-endian `u32` to `dst`, or returns `None` if there is no room.
pub fn try_put_u32_be<B: BytesAccumulator>(dst: &mut B, v: u32) -> (r: Option<()>)
    requires
        old(dst).wf(),
    ensures
        final(dst).wf(),
        r is Some <==> 4 <= old(dst).spare(),
        r is Some ==> final(dst).contents() == old(dst).contents() + crate::buffer_pool::u32_be_bytes(v)
            && final(dst).spare() == old(dst).spare() - 4 && final(dst).room() == old(dst).room() - 4,
        r is None ==> final(dst).contents() == old(dst).contents() && final(dst).spare()
            == old(dst).spare() && final(dst).room() == old(dst).room(),
{
    let a = [
        (v / 16777216) as u8,
        ((v / 65536) % 256) as u8,
        ((v / 256) % 256) as u8,
        (v % 256) as u8,
    ];
    let r = dst.try_put_slice(&a);
    proof {
        assert(a@ =~= crate::buffer_pool::u32_be_bytes(v));
    }
    r
}

/// The bytes of a sequence of chunks, concatenated.
pub open spec fn chunks_bytes(chunks: Seq<Shared>) -> Seq<u8>
    decreases chunks.len(),
{
    if chunks.len() == 0 {
        Seq::empty()
    } else {
        chunks[0]@ + chunks_bytes(chunks.drop_first())
    }
}

proof fn lemma_chunks_bytes_push(chunks: Seq<Shared>, c: Shared)
    ensures
        chunks_bytes(chunks.push(c)) == chunks_bytes(chunks) + c@,
    decreases chunks.len(),
{
    if chunks.len() == 0 {
        assert(chunks.push(c).drop_first() =~= Seq::<Shared>::empty());
        assert(chunks_bytes(chunks.push(c).drop_first()) == Seq::<u8>::empty());
        assert(chunks.push(c)[0] == c);
        assert(chunks_bytes(chunks.push(c)) =~= c@);
    } else {
        lemma_chunks_bytes_push(chunks.drop_first(), c);
        assert(chunks.push(c).drop_first() =~= chunks.drop_first().push(c));
        assert(chunks_bytes(chunks.push(c)) =~= chunks_bytes(chunks) + c@);
    }
}

/// Number of chunks above which an accumulator stops taking more packets.
const MAX_CHUNKS: usize = 118;

/// Summary of the chunks handed to a vectored write.
#[derive(Clone, Copy, Debug, PartialEq, Eq)]
pub struct Iovecs {
    pub num_iovecs: usize,
    pub total_len: usize,
}

/// An accumulator that keeps the accumulated bytes as a queue of [`Shared`] chunks, copying
/// small writes into an [`Owned`] and handing over `Shared`s as they are.
pub struct BytesAccumulatorImpl {
    owned: Owned,
    chunks: VecDeque<Shared>,
    /// Total number of bytes in `self.chunks`.
    total_size: usize,
}

impl BytesAccumulatorImpl {

    /// The bytes that have been moved out of the `Owned` into chunks.
    pub closed spec fn chunked(&self) -> Seq<u8> {
        chunks_bytes(self.chunks@)
    }

    /// The queue of chunks.
    pub closed spec fn chunk_seq(&self) -> Seq<Shared> {
        self.chunks@
    }

    /// The bytes that are still in the `Owned`.
    pub closed spec fn pending(&self) -> Seq<u8> {
        self.owned@.0
    }

    pub fn new(owned: Owned) -> (r: Self)
        requires
            owned@.0.len() == 0,
        ensures
            r.wf(),
            r.contents() == Seq::<u8>::empty(),
            r.spare() == owned@.1,
    {
        let r = BytesAccumulatorImpl { owned, chunks: VecDeque::new(), total_size: 0 };
        proof {
            assert(r.chunks@ =~= Seq::<Shared>::empty());
        }
        r
    }

    /// Moves the pending bytes into a chunk of their own.
    fn finish_pending(&mut self)
        requires
            old(self).wf(),
        ensures
            final(self).wf(),
            final(self).chunked() == old(self).contents(),
            final(self).pending().len() == 0,
            final(self).contents() == old(self).contents(),
            final(self).spare() == old(self).spare(),
            final(self).owned@.1 == old(self).owned@.1,
            final(self).total_size + final(self).owned@.0.len() == old(self).total_size + old(
                self,
            ).owned@.0.len(),
            final(self).chunk_seq().len() == old(self).chunk_seq().len() + if old(self).pending().len()
                == 0 {
                0nat
            } else {
                1nat
            },
            final(self).chunk_seq().take(old(self).chunk_seq().len() as int) == old(self).chunk_seq(),
    {
        if !self.owned.filled_is_empty() {
            let filled_len = self.owned.filled_len();
            let shared = self.owned.split_to(filled_len).freeze();
            proof {
                lemma_chunks_bytes_push(self.chunks@, shared);
                assert(self.owned@.0 =~= Seq::<u8>::empty());
            }
            self.total_size = self.total_size + shared.len();
            self.chunks.push_back(shared);
            proof {
                assert(self.contents() =~= old(self).contents());
                assert(self.chunks@.take(old(self).chunks@.len() as int) =~= old(self).chunks@);
            }
        } else {
            proof {
                assert(self.contents() =~= old(self).contents());
                assert(self.chunks@.take(old(self).chunks@.len() as int) =~= old(self).chunks@);
            }
        }
    }

    /// The number of chunks.
    pub fn num_chunks(&self) -> (r: usize)
        ensures
            r == self.chunk_seq().len(),
    {
        self.chunks.len()
    }

    /// Describes the first `max` chunks, which must be all there is if nothing is pending.
    pub fn to_iovecs(&self, max: usize) -> (r: Iovecs)
        requires
            self.wf(),
            self.pending().len() == 0,
        ensures
            r.num_iovecs == if self.chunk_seq().len() < max { self.chunk_seq().len() } else { max as nat },
            r.total_len == chunks_bytes(self.chunk_seq().take(r.num_iovecs as int)).len(),
    {
        let n = if self.chunks.len() < max { self.chunks.len() } else { max };
        let mut total_len: usize = 0;
        let mut i: usize = 0;
        while i < n
            invariant
                i <= n <= self.chunks@.len(),
                total_len == chunks_bytes(self.chunks@.take(i as int)).len(),
                chunks_bytes(self.chunks@).len() <= usize::MAX,
            decreases n - i,
        {
            proof {
                lemma_chunks_bytes_push(self.chunks@.take(i as int), self.chunks@[i as int]);
                assert(self.chunks@.take(i + 1) =~= self.chunks@.take(i as int).push(self.chunks@[i as int]));
                lemma_chunks_bytes_prefix_len(self.chunks@, i + 1);
            }
            total_len = total_len + self.chunks[i].len();
            i = i + 1;
        }
        Iovecs { num_iovecs: n, total_len }
    }

    /// The bytes of chunk `i`.
    pub fn chunk(&self, i: usize) -> (r: &[u8])
        requires
            i < self.chunk_seq().len(),
        ensures
            r@ == self.chunk_seq()[i as int]@,
    {
        self.chunks[i].as_slice()
    }

    /// Removes the first `n` bytes, which must all have been moved into chunks.
    pub fn drain(&mut self, n: usize)
        requires
            old(self).wf(),
            n <= old(self).chunked().len(),
        ensures
            final(self).wf(),
            final(self).contents() == old(self).contents().skip(n as int),
            final(self).spare() >= old(self).spare(),
    {
        let ghost old_chunked = self.chunked();
        if self.total_size == n {
            self.total_size = 0;
            self.chunks.clear();
            proof {
                assert(self.chunks@ =~= Seq::<Shared>::empty());
                assert(self.contents() =~= old(self).contents().skip(n as int));
            }
            return;
        }
        let ghost n_orig = n as int;
        let ghost mut removed: int = 0;
        let mut n = n;
        while n > 0
            invariant
                removed + n == n_orig,
                n_orig <= old_chunked.len(),
                0 <= removed,
                chunks_bytes(self.chunks@) == old_chunked.skip(removed),
                self.total_size == chunks_bytes(self.chunks@).len(),
                self.total_size + self.owned@.0.len() <= usize::MAX,
                self.owned == old(self).owned,
                old_chunked == chunks_bytes(old(self).chunks@),
                forall|i: int| 0 <= i < self.chunks@.len() ==> #[trigger] self.chunks@[i]@.len() > 0,
            decreases n, self.chunks@.len(),
        {
            let ghost before = self.chunks@;
            let mut chunk = self.chunks.pop_front().unwrap();
            proof {
                assert(before.drop_first() =~= self.chunks@);
                assert(chunks_bytes(before) =~= chunk@ + chunks_bytes(self.chunks@));
            }
            self.total_size = self.total_size - chunk.len();
            if n >= chunk.len() {
                n = n - chunk.len();
                proof {
                    assert(chunks_bytes(self.chunks@) =~= chunks_bytes(before).skip(chunk@.len() as int));
                    assert(old_chunked.skip(removed).skip(chunk@.len() as int) =~= old_chunked.skip(removed + chunk@.len()));
                    removed = removed + chunk@.len();
                    assert(chunks_bytes(self.chunks@) =~= old_chunked.skip(removed));
                }
            } else {
                chunk.drain(n);
                self.total_size = self.total_size + chunk.len();
                let ghost mid = self.chunks@;
                self.chunks.push_front(chunk);
                proof {
                    assert(self.chunks@.drop_first() =~= mid);
                    assert(self.chunks@[0] == chunk);
                    assert(chunks_bytes(self.chunks@) == chunk@ + chunks_bytes(mid));
                    assert(chunks_bytes(self.chunks@) =~= chunks_bytes(before).skip(n as int));
                    assert(old_chunked.skip(removed).skip(n as int) =~= old_chunked.skip(removed + n));
                    removed = removed + n;
                    assert(chunks_bytes(self.chunks@) =~= old_chunked.skip(removed));
                }
                n = 0;
            }
        }
        proof {
            assert(self.contents() =~= old(self).contents().skip(n_orig));
        }
    }
}

proof fn lemma_chunks_bytes_prefix_len(chunks: Seq<Shared>, i: int)
    requires
        0 <= i <= chunks.len(),
    ensures
        chunks_bytes(chunks.take(i)).len() <= chunks_bytes(chunks).len(),
    decreases chunks.len(),
{
    if i > 0 {
        lemma_chunks_bytes_prefix_len(chunks.drop_first(), i - 1);
        assert(chunks.take(i).drop_first() =~= chunks.drop_first().take(i - 1));
    }
}

impl BytesAccumulator for BytesAccumulatorImpl {
    closed spec fn wf(&self) -> bool {
        &&& forall|i: int| 0 <= i < self.chunks@.len() ==> #[trigger] self.chunks@[i]@.len() > 0
        &&& self.total_size == chunks_bytes(self.chunks@).len()
        &&& self.total_size + self.owned@.0.len() <= usize::MAX
    }

    closed spec fn contents(&self) -> Seq<u8> {
        chunks_bytes(self.chunks@) + self.owned@.0
    }

    closed spec fn spare(&self) -> nat {
        let room = usize::MAX - self.total_size - self.owned@.0.len();
        if self.owned@.1 <= room {
            self.owned@.1
        } else {
            room as nat
        }
    }

    closed spec fn room(&self) -> nat {
        (usize::MAX - self.total_size - self.owned@.0.len()) as nat
    }

    closed spec fn accepts_more(&self) -> bool {
        self.chunks@.len() < MAX_CHUNKS
    }

    closed spec fn unfinished(&self) -> Seq<u8> {
        self.owned@.0
    }

    proof fn lemma_room(&self) {
    }

    fn spare_len(&self) -> (r: usize) {
        let room = usize::MAX - self.total_size - self.owned.filled_len();
        let unfilled = self.owned.unfilled_len();
        if unfilled <= room {
            unfilled
        } else {
            room
        }
    }

    fn can_accept_more(&self) -> bool {
        self.chunks.len() < MAX_CHUNKS
    }

    fn reserve(&mut self, additional: usize) -> (r: Result<(), Error>) {
        let room = usize::MAX - self.total_size - self.owned.filled_len();
        if additional > room {
            return Err(Error);
        }
        self.owned.reserve(additional)
    }

    fn try_put_slice(&mut self, src: &[u8]) -> (r: Option<()>) {
        let spare = self.spare_len();
        if src.len() <= spare {
            self.owned.put_slice(src);
            Some(())
        } else {
            None
        }
    }

    fn put_shared(&mut self, src: Shared) {
        // An empty Shared would be an empty iovec in a vectored write, so skip it.
        if src.is_empty() {
            proof {
                assert(src@ =~= Seq::<u8>::empty());
                assert(self.contents() =~= old(self).contents() + src@);
            }
            return;
        }
        self.finish_pending();
        proof {
            lemma_chunks_bytes_push(self.chunks@, src);
        }
        self.total_size = self.total_size + src.len();
        self.chunks.push_back(src);
        proof {
            assert(self.contents() =~= old(self).contents() + src@);
        }
    }

    /// Moves the bytes of the packet into a chunk of their own, if there are any.
    fn put_done(&mut self)
        ensures
            final(self).chunked() == old(self).contents(),
            final(self).chunk_seq().len() == old(self).chunk_seq().len() + if old(self).pending().len()
                == 0 {
                0nat
            } else {
                1nat
            },
            final(self).chunk_seq().take(old(self).chunk_seq().len() as int) == old(self).chunk_seq(),
    {
        self.finish_pending();
    }

    fn is_empty(&self) -> (r: bool) {
        self.owned.filled_is_empty() && self.total_size == 0
    }
}

/// An accumulator that keeps all accumulated bytes in one contiguous buffer.
pub struct SingleAccumulator {
    buf: Vec<u8>,
}

impl SingleAccumulator {
    pub fn new() -> (r: Self)
        ensures
            r.wf(),
            r.contents() == Seq::<u8>::empty(),
            r.spare() == usize::MAX,
    {
        SingleAccumulator { buf: Vec::new() }
    }

    /// The room left is all that `usize` can count beyond what is accumulated; the accumulator
    /// always takes another packet, and nothing of it is ever unfinished.
    pub proof fn lemma_spare(&self)
        ensures
            self.wf(),
            self.spare() == usize::MAX - self.contents().len(),
            self.room() == self.spare(),
            self.accepts_more(),
            self.unfinished() == Seq::<u8>::empty(),
    {
        assert(self.buf@.len() == self.buf.len());
    }

    /// The accumulated bytes.
    pub fn as_slice(&self) -> (r: &[u8])
        ensures
            r@ == self.contents(),
    {
        self.buf.as_slice()
    }

    /// Removes the first `n` bytes.
    pub fn drain(&mut self, n: usize)
        requires
            n <= old(self).contents().len(),
        ensures
            final(self).contents() == old(self).contents().skip(n as int),
            final(self).spare() >= old(self).spare(),
    {
        let _ = self.buf.len();
        let rest = self.buf.split_off(n);
        self.buf = rest;
        let _ = self.buf.len();
        proof {
            assert(self.buf@ =~= old(self).buf@.skip(n as int));
        }
    }

    /// Converts the accumulated bytes into a `Shared`.
    pub fn freeze(self) -> (r: Shared)
        ensures
            r@ == self.contents(),
    {
        Shared::from_vec(self.buf)
    }
}

impl BytesAccumulator for SingleAccumulator {
    closed spec fn wf(&self) -> bool {
        true
    }

    closed spec fn contents(&self) -> Seq<u8> {
        self.buf@
    }

    closed spec fn spare(&self) -> nat {
        (usize::MAX - self.buf@.len()) as nat
    }

    closed spec fn room(&self) -> nat {
        (usize::MAX - self.buf@.len()) as nat
    }

    closed spec fn accepts_more(&self) -> bool {
        true
    }

    closed spec fn unfinished(&self) -> Seq<u8> {
        Seq::empty()
    }

    proof fn lemma_room(&self) {
        assert(self.buf@.len() == self.buf.len());
    }

    fn spare_len(&self) -> (r: usize) {
        usize::MAX - self.buf.len()
    }

    fn can_accept_more(&self) -> bool {
        true
    }

    fn reserve(&mut self, additional: usize) -> (r: Result<(), Error>) {
        if additional > usize::MAX - self.buf.len() {
            Err(Error)
        } else {
            Ok(())
        }
    }

    fn try_put_slice(&mut self, src: &[u8]) -> (r: Option<()>) {
        if src.len() <= usize::MAX - self.buf.len() {
            self.buf.extend_from_slice(src);
            proof {
                assert(self.buf@ =~= old(self).buf@ + src@);
            }
            Some(())
        } else {
            None
        }
    }

    fn put_shared(&mut self, src: Shared) {
        let _ = self.buf.len();
        self.buf.extend_from_slice(src.as_slice());
        proof {
            assert(self.buf@ =~= old(self).buf@ + src@);
        }
    }

    fn put_done(&mut self) {
    }

    fn is_empty(&self) -> (r: bool) {
        self.buf.len() == 0
    }
}

/// Either kind of accumulator.
pub enum EitherAccumulator {
    Iovecs(BytesAccumulatorImpl),
    Single(SingleAccumulator),
}

impl BytesAccumulator for EitherAccumulator {
    open spec fn wf(&self) -> bool {
        match self {
            EitherAccumulator::Iovecs(ba) => ba.wf(),
            EitherAccumulator::Single(ba) => ba.wf(),
        }
    }

    open spec fn contents(&self) -> Seq<u8> {
        match self {
            EitherAccumulator::Iovecs(ba) => ba.contents(),
            EitherAccumulator::Single(ba) => ba.contents(),
        }
    }

    open spec fn spare(&self) -> nat {
        match self {
            EitherAccumulator::Iovecs(ba) => ba.spare(),
            EitherAccumulator::Single(ba) => ba.spare(),
        }
    }

    open spec fn room(&self) -> nat {
        match self {
            EitherAccumulator::Iovecs(ba) => ba.room(),
            EitherAccumulator::Single(ba) => ba.room(),
        }
    }

    open spec fn accepts_more(&self) -> bool {
        match self {
            EitherAccumulator::Iovecs(ba) => ba.accepts_more(),
            EitherAccumulator::Single(ba) => ba.accepts_more(),
        }
    }

    open spec fn unfinished(&self) -> Seq<u8> {
        match self {
            EitherAccumulator::Iovecs(ba) => ba.unfinished(),
            EitherAccumulator::Single(ba) => ba.unfinished(),
        }
    }

    proof fn lemma_room(&self) {
        match self {
            EitherAccumulator::Iovecs(ba) => ba.lemma_room(),
            EitherAccumulator::Single(ba) => ba.lemma_room(),
        }
    }

    fn spare_len(&self) -> (r: usize) {
        match self {
            EitherAccumulator::Iovecs(ba) => ba.spare_len(),
            EitherAccumulator::Single(ba) => ba.spare_len(),
        }
    }

    fn can_accept_more(&self) -> bool {
        match self {
            EitherAccumulator::Iovecs(ba) => ba.can_accept_more(),
            EitherAccumulator::Single(ba) => ba.can_accept_more(),
        }
    }

    fn reserve(&mut self, additional: usize) -> (r: Result<(), Error>) {
        match self {
            EitherAccumulator::Iovecs(ba) => ba.reserve(additional),
            EitherAccumulator::Single(ba) => ba.reserve(additional),
        }
    }

    fn try_put_slice(&mut self, src: &[u8]) -> (r: Option<()>) {
        match self {
            EitherAccumulator::Iovecs(ba) => ba.try_put_slice(src),
            EitherAccumulator::Single(ba) => ba.try_put_slice(src),
        }
    }

    fn put_shared(&mut self, src: Shared) {
        match self {
            EitherAccumulator::Iovecs(ba) => ba.put_shared(src),
            EitherAccumulator::Single(ba) => ba.put_shared(src),
        }
    }

    fn put_done(&mut self) {
        match self {
            EitherAccumulator::Iovecs(ba) => ba.put_done(),
            EitherAccumulator::Single(ba) => ba.put_done(),
        }
    }

    fn is_empty(&self) -> (r: bool) {
        match self {
            EitherAccumulator::Iovecs(ba) => ba.is_empty(),
            EitherAccumulator::Single(ba) => ba.is_empty(),
        }
    }
}

} // verus!

//! A read cursor over handshake bytes that arrive as an ordered list of
//! chunks. The cursor presents the chunks as one stream of bytes and never
//! reads past its end: a read that asks for more than is left fails with
//! `Truncated` and leaves the cursor where it was.

use crate::buffer::{bytes_from_vec, contents};
use crate::error::Truncated;
use bytes::Bytes;
use vstd::prelude::*;

verus! {

/// The bytes of the chunks from index `from` on, in order.
pub open spec fn concat_from(chunks: Seq<&[u8]>, from: int) -> Seq<u8>
    decreases chunks.len() - from,
{
    if 0 <= from < chunks.len() {
        chunks[from]@ + concat_from(chunks, from + 1)
    } else {
        Seq::empty()
    }
}

/// All bytes of a chunk list, in order: the stream that a cursor over the
/// list presents.
pub open spec fn concat(chunks: Seq<&[u8]>) -> Seq<u8> {
    concat_from(chunks, 0)
}

/// The number of bytes in the first `upto` chunks.
pub open spec fn prefix_len(chunks: Seq<&[u8]>, upto: int) -> nat
    decreases upto,
{
    if 0 < upto <= chunks.len() {
        prefix_len(chunks, upto - 1) + chunks[upto - 1]@.len()
    } else {
        0
    }
}

/// What is left of the first chunk, from index `from` on, that reaches past
/// the next `skip` bytes; empty where the chunks end before that.
pub open spec fn front_from(chunks: Seq<&[u8]>, from: int, skip: nat) -> Seq<u8>
    decreases chunks.len() - from,
{
    if 0 <= from < chunks.len() {
        if skip < chunks[from]@.len() {
            chunks[from]@.skip(skip as int)
        } else {
            front_from(chunks, from + 1, (skip - chunks[from]@.len()) as nat)
        }
    } else {
        Seq::empty()
    }
}

/// The two-byte big-endian number with high byte `hi` and low byte `lo`.
pub open spec fn be_u16(hi: u8, lo: u8) -> u16 {
    (hi as int * 256 + lo as int) as u16
}

/// The chunks from `from` on hold as many bytes as the whole list less its
/// first `from` chunks, and are what is left of the stream after those.
proof fn lemma_concat_split(chunks: Seq<&[u8]>, from: int)
    requires
        0 <= from <= chunks.len(),
    ensures
        prefix_len(chunks, from) + concat_from(chunks, from).len() == concat(chunks).len(),
        concat(chunks).skip(prefix_len(chunks, from) as int) == concat_from(chunks, from),
    decreases from,
{
    if from == 0 {
        assert(concat(chunks).skip(0) =~= concat(chunks));
    } else {
        lemma_concat_split(chunks, from - 1);
        let before = prefix_len(chunks, from - 1) as int;
        let here = chunks[from - 1]@;
        assert(concat_from(chunks, from - 1) == here + concat_from(chunks, from));
        assert(concat(chunks).skip(before).skip(here.len() as int) =~= concat(chunks).skip(
            before + here.len(),
        ));
        assert((here + concat_from(chunks, from)).skip(here.len() as int) =~= concat_from(
            chunks,
            from,
        ));
    }
}

/// Skipping whole chunks first does not change which chunk is in front.
proof fn lemma_front_split(chunks: Seq<&[u8]>, from: int, skip: nat)
    requires
        0 <= from <= chunks.len(),
    ensures
        front_from(chunks, 0, prefix_len(chunks, from) + skip) == front_from(chunks, from, skip),
    decreases from,
{
    if from > 0 {
        let here = chunks[from - 1]@.len();
        lemma_front_split(chunks, from - 1, here + skip);
        assert(prefix_len(chunks, from) + skip == prefix_len(chunks, from - 1) + (here + skip));
    }
}

/// Empty chunks add nothing to the stream.
proof fn lemma_skip_empty(chunks: Seq<&[u8]>, from: int, to: int)
    requires
        0 <= from <= to <= chunks.len(),
        forall|i: int| from <= i < to ==> chunks[i]@.len() == 0,
    ensures
        prefix_len(chunks, to) == prefix_len(chunks, from),
        concat_from(chunks, to) == concat_from(chunks, from),
        forall|skip: nat| front_from(chunks, to, skip) == front_from(chunks, from, skip),
    decreases to - from,
{
    if from < to {
        lemma_skip_empty(chunks, from + 1, to);
        lemma_skip_empty(chunks, from, to - 1);
        assert(chunks[from]@ + concat_from(chunks, from + 1) =~= concat_from(chunks, from + 1));
        assert forall|skip: nat| front_from(chunks, to, skip) == front_from(
            chunks,
            from,
            skip,
        ) by {
            assert(front_from(chunks, from, skip) == front_from(chunks, from + 1, skip));
        }
    }
}

/// The pieces that successive reads of the lengths `lens` take from
/// `stream`: each read takes its bytes from the front of what the reads
/// before it left.
pub open spec fn pieces(stream: Seq<u8>, lens: Seq<nat>) -> Seq<Seq<u8>>
    decreases lens.len(),
{
    if lens.len() == 0 {
        Seq::empty()
    } else {
        seq![stream.take(lens[0] as int)] + pieces(
            stream.skip(lens[0] as int),
            lens.drop_first(),
        )
    }
}

/// The sum of the lengths `lens`.
pub open spec fn total(lens: Seq<nat>) -> nat
    decreases lens.len(),
{
    if lens.len() == 0 {
        0
    } else {
        lens[0] + total(lens.drop_first())
    }
}

/// The pieces put end to end.
pub open spec fn join(pieces: Seq<Seq<u8>>) -> Seq<u8>
    decreases pieces.len(),
{
    if pieces.len() == 0 {
        Seq::empty()
    } else {
        pieces[0] + join(pieces.drop_first())
    }
}

/// Reads that together take the whole stream give back its bytes, in
/// order, whatever their lengths.
pub proof fn lemma_pieces_join(stream: Seq<u8>, lens: Seq<nat>)
    requires
        total(lens) == stream.len(),
    ensures
        join(pieces(stream, lens)) == stream,
    decreases lens.len(),
{
    if lens.len() == 0 {
        assert(stream =~= Seq::<u8>::empty());
    } else {
        let first = stream.take(lens[0] as int);
        let rest = pieces(stream.skip(lens[0] as int), lens.drop_first());
        lemma_pieces_join(stream.skip(lens[0] as int), lens.drop_first());
        assert((seq![first] + rest)[0] == first);
        assert((seq![first] + rest).drop_first() =~= rest);
        assert(first + stream.skip(lens[0] as int) =~= stream);
    }
}

/// Chunking is invisible to reads. `advance`, `read_u8`, `read_u16` and
/// `materialize` each take a number of bytes from the front of the unread
/// bytes, and a new cursor's unread bytes are the chunks put end to end. So
/// over two chunk lists `a` and `b` that hold the same bytes, reads of the
/// same lengths take the same pieces; and where the lengths add up to the
/// whole, the pieces are the bytes of the chunks, in order.
pub proof fn lemma_reads_ignore_chunking(a: Seq<&[u8]>, b: Seq<&[u8]>, lens: Seq<nat>)
    requires
        concat(a) == concat(b),
        total(lens) == concat(a).len(),
    ensures
        pieces(concat(a), lens) == pieces(concat(b), lens),
        join(pieces(concat(a), lens)) == concat(a),
        join(pieces(concat(b), lens)) == concat(b),
{
    lemma_pieces_join(concat(a), lens);
}

/// The index of the first chunk at or after `from` that holds a byte, or the
/// number of chunks where there is none.
fn first_filled(chunks: &[&[u8]], from: usize) -> (at: usize)
    requires
        from <= chunks@.len(),
    ensures
        from <= at <= chunks@.len(),
        forall|i: int| from <= i < at ==> chunks@[i]@.len() == 0,
        at < chunks@.len() ==> chunks@[at as int]@.len() > 0,
{
    let mut at = from;
    while at < chunks.len() && chunks[at].len() == 0
        invariant
            from <= at <= chunks@.len(),
            forall|i: int| from <= i < at ==> chunks@[i]@.len() == 0,
        decreases chunks@.len() - at,
    {
        at += 1;
    }
    at
}

/// The number of bytes that `chunks` hold together, where a `usize` can
/// say it. A chunk list may name one chunk many times, and so hold more.
pub fn total_len(chunks: &[&[u8]]) -> (len: Option<usize>)
    ensures
        match len {
            Some(len) => len == concat(chunks@).len(),
            None => concat(chunks@).len() > usize::MAX,
        },
{
    let mut len: usize = 0;
    let mut at: usize = 0;
    while at < chunks.len()
        invariant
            at <= chunks@.len(),
            len == prefix_len(chunks@, at as int),
        decreases chunks@.len() - at,
    {
        proof {
            lemma_concat_split(chunks@, at + 1);
        }
        if chunks[at].len() > usize::MAX - len {
            return None;
        }
        len += chunks[at].len();
        at += 1;
    }
    proof {
        lemma_concat_split(chunks@, at as int);
    }
    Some(len)
}

/// A cursor over an ordered list of byte chunks. It borrows the chunks and
/// copies nothing but what `materialize` is asked for.
pub struct NonContiguousBuffer<'a> {
    slices: &'a [&'a [u8]],
    slice: usize,
    byte: usize,
}

impl<'a> View for NonContiguousBuffer<'a> {
    type V = Seq<u8>;

    /// The bytes not read yet.
    open spec fn view(&self) -> Seq<u8> {
        concat(self.chunks()).skip(self.consumed() as int)
    }
}

impl<'a> NonContiguousBuffer<'a> {
    /// The cursor stands on an unread byte, or behind the last chunk.
    #[verifier::type_invariant]
    spec fn stands_on_a_byte(self) -> bool {
        &&& self.slice <= self.slices@.len()
        &&& self.slice < self.slices@.len() ==> self.byte < self.slices@[self.slice as int]@.len()
        &&& self.slice == self.slices@.len() ==> self.byte == 0
        &&& concat(self.slices@).len() <= usize::MAX
    }

    /// The chunks that the cursor reads.
    pub closed spec fn chunks(self) -> Seq<&'a [u8]> {
        self.slices@
    }

    /// The number of bytes read so far.
    pub closed spec fn consumed(self) -> nat {
        prefix_len(self.slices@, self.slice as int) + self.byte as nat
    }

    /// The cursor has read no more than its chunks hold, and they hold no
    /// more than can be counted.
    pub open spec fn wf(self) -> bool {
        self.consumed() <= concat(self.chunks()).len() <= usize::MAX
    }

    /// The unread part of the chunk that the cursor stands in.
    pub open spec fn front(self) -> Seq<u8> {
        front_from(self.chunks(), 0, self.consumed())
    }

    /// What the fields say of the stream: the unread bytes are the rest of
    /// the current chunk and all chunks behind it.
    proof fn lemma_position(self)
        requires
            self.stands_on_a_byte(),
        ensures
            self.wf(),
            self.slice < self.slices@.len() ==> self@ == self.slices@[self.slice as int]@.skip(
                self.byte as int,
            ) + concat_from(self.slices@, self.slice + 1),
            self.slice < self.slices@.len() ==> self.front() == self.slices@[self.slice
                as int]@.skip(self.byte as int),
            self.slice == self.slices@.len() ==> self@ == Seq::<u8>::empty() && self.front()
                == Seq::<u8>::empty(),
    {
        let chunks = self.slices@;
        let at = self.slice as int;
        lemma_concat_split(chunks, at);
        lemma_front_split(chunks, at, self.byte as nat);
        if at < chunks.len() {
            let here = chunks[at]@;
            assert(concat(chunks).skip(prefix_len(chunks, at) as int).skip(self.byte as int)
                =~= concat(chunks).skip(prefix_len(chunks, at) + self.byte));
            assert((here + concat_from(chunks, at + 1)).skip(self.byte as int) =~= here.skip(
                self.byte as int,
            ) + concat_from(chunks, at + 1));
        } else {
            assert(concat(chunks).skip(prefix_len(chunks, at) as int) =~= Seq::<u8>::empty());
        }
    }

    /// A cursor at the start of `chunks`.
    pub fn new(chunks: &'a [&'a [u8]]) -> (cursor: Self)
        requires
            concat(chunks@).len() <= usize::MAX,
        ensures
            cursor.chunks() == chunks@,
            cursor.consumed() == 0,
            cursor@ == concat(chunks@),
            cursor.wf(),
    {
        let slice = first_filled(chunks, 0);
        proof {
            lemma_skip_empty(chunks@, 0, slice as int);
            assert(concat(chunks@).skip(0) =~= concat(chunks@));
        }
        NonContiguousBuffer { slices: chunks, slice, byte: 0 }
    }

    /// The number of unread bytes, over all chunks.
    pub fn remaining(&self) -> (count: usize)
        ensures
            count == self@.len(),
            self.wf(),
    {
        proof {
            use_type_invariant(self);
            self.lemma_position();
        }
        if self.slice == self.slices.len() {
            return 0;
        }
        let mut count: usize = self.slices[self.slice].len() - self.byte;
        let mut i: usize = self.slice + 1;
        while i < self.slices.len()
            invariant
                self.slice < i <= self.slices@.len(),
                count + concat_from(self.slices@, i as int).len() == self@.len(),
                self@.len() <= usize::MAX,
            decreases self.slices@.len() - i,
        {
            count += self.slices[i].len();
            i += 1;
        }
        count
    }

    /// Whether a byte is left to read.
    pub fn has_remaining(&self) -> (some: bool)
        ensures
            some == (self@.len() > 0),
    {
        proof {
            use_type_invariant(self);
            self.lemma_position();
        }
        self.slice < self.slices.len()
    }

    /// The unread part of the current chunk. It may be shorter than what
    /// the caller wants: it is empty only where nothing is left to read.
    pub fn chunk(&self) -> (front: &'a [u8])
        ensures
            front@ == self.front(),
            front@.len() <= self@.len(),
            front@ == self@.take(front@.len() as int),
            front@.len() == 0 <==> self@.len() == 0,
    {
        proof {
            use_type_invariant(self);
            self.lemma_position();
        }
        if self.slice == self.slices.len() {
            let nothing: &[u8] = &[];
            return nothing;
        }
        let here: &[u8] = self.slices[self.slice];
        let front = &here[self.byte..here.len()];
        proof {
            assert(front@ =~= here@.skip(self.byte as int));
            assert(self@.take(front@.len() as int) =~= front@);
        }
        front
    }

    /// Skips `cnt` bytes, across chunk boundaries. Fails, and skips nothing,
    /// where fewer than `cnt` bytes are left.
    pub fn advance(&mut self, cnt: usize) -> (done: Result<(), Truncated>)
        ensures
            done.is_ok() <==> cnt <= old(self)@.len(),
            done.is_ok() ==> final(self).consumed() == old(self).consumed() + cnt && final(self)@
                == old(self)@.skip(cnt as int),
            done matches Err(e) ==> e == (Truncated {
                requested: cnt,
                available: old(self)@.len() as usize,
            }) && *final(self) == *old(self),
            final(self).chunks() == old(self).chunks(),
            final(self).wf(),
    {
        let available = self.remaining();
        if cnt > available {
            return Err(Truncated { requested: cnt, available });
        }
        proof {
            use_type_invariant(&*self);
            self.lemma_position();
        }
        let slices = self.slices;
        let mut slice = self.slice;
        let mut byte = self.byte;
        let mut left = cnt;
        while left > 0
            invariant
                slices@ == old(self).slices@,
                concat(slices@).len() <= usize::MAX,
                slice <= slices@.len(),
                slice < slices@.len() ==> byte < slices@[slice as int]@.len(),
                slice == slices@.len() ==> byte == 0,
                prefix_len(slices@, slice as int) + byte + left == old(self).consumed() + cnt,
                old(self).consumed() + cnt <= concat(slices@).len(),
            decreases left,
        {
            proof {
                lemma_concat_split(slices@, slice as int);
            }
            let in_slice = slices[slice].len() - byte;
            if in_slice > left {
                byte += left;
                left = 0;
            } else {
                left -= in_slice;
                let next = first_filled(slices, slice + 1);
                proof {
                    lemma_skip_empty(slices@, slice + 1, next as int);
                }
                slice = next;
                byte = 0;
            }
        }
        *self = NonContiguousBuffer { slices, slice, byte };
        proof {
            let all = concat(slices@);
            assert(all.skip(old(self).consumed() as int).skip(cnt as int) =~= all.skip(
                old(self).consumed() + cnt,
            ));
        }
        Ok(())
    }

    /// Reads one byte.
    pub fn read_u8(&mut self) -> (byte: Result<u8, Truncated>)
        ensures
            byte.is_ok() <==> old(self)@.len() >= 1,
            byte matches Ok(b) ==> b == old(self)@[0],
            byte.is_ok() ==> final(self).consumed() == old(self).consumed() + 1 && final(self)@
                == old(self)@.skip(1),
            byte matches Err(e) ==> e == (Truncated { requested: 1, available: 0 }) && *final(self)
                == *old(self),
            final(self).chunks() == old(self).chunks(),
            final(self).wf(),
    {
        proof {
            use_type_invariant(&*self);
            self.lemma_position();
        }
        if self.slice == self.slices.len() {
            return Err(Truncated { requested: 1, available: 0 });
        }
        let value = self.slices[self.slice][self.byte];
        match self.advance(1) {
            Ok(()) => Ok(value),
            Err(e) => Err(e),
        }
    }

    /// Reads a big-endian two-byte number, which may lie across a chunk
    /// boundary.
    pub fn read_u16(&mut self) -> (number: Result<u16, Truncated>)
        ensures
            number.is_ok() <==> old(self)@.len() >= 2,
            number matches Ok(n) ==> n == be_u16(old(self)@[0], old(self)@[1]),
            number.is_ok() ==> final(self).consumed() == old(self).consumed() + 2 && final(self)@
                == old(self)@.skip(2),
            number matches Err(e) ==> e == (Truncated {
                requested: 2,
                available: old(self)@.len() as usize,
            }) && *final(self) == *old(self),
            final(self).chunks() == old(self).chunks(),
            final(self).wf(),
    {
        let available = self.remaining();
        if available < 2 {
            return Err(Truncated { requested: 2, available });
        }
        let hi = match self.read_u8() {
            Ok(b) => b,
            Err(e) => { return Err(e); },
        };
        let lo = match self.read_u8() {
            Ok(b) => b,
            Err(e) => { return Err(e); },
        };
        proof {
            assert(old(self)@.skip(1)[0] == old(self)@[1]);
            assert(old(self)@.skip(1).skip(1) =~= old(self)@.skip(2));
        }
        Ok((hi as u16) * 256 + (lo as u16))
    }

    /// Copies the next `len` bytes into a buffer of their own and moves
    /// past them. Fails, and reads nothing, where fewer are left.
    pub fn materialize(&mut self, len: usize) -> (copy: Result<Bytes, Truncated>)
        ensures
            copy.is_ok() <==> len <= old(self)@.len(),
            copy matches Ok(bytes) ==> contents(bytes) == old(self)@.take(len as int),
            copy.is_ok() ==> final(self).consumed() == old(self).consumed() + len && final(self)@
                == old(self)@.skip(len as int),
            copy matches Err(e) ==> e == (Truncated {
                requested: len,
                available: old(self)@.len() as usize,
            }) && *final(self) == *old(self),
            final(self).chunks() == old(self).chunks(),
            final(self).wf(),
    {
        let available = self.remaining();
        if len > available {
            return Err(Truncated { requested: len, available });
        }
        let mut data: Vec<u8> = Vec::new();
        let mut left = len;
        proof {
            assert(old(self)@.skip(0) =~= old(self)@);
            assert(old(self)@.take(0) =~= data@);
        }
        while left > 0
            invariant
                left <= len <= old(self)@.len(),
                data@ == old(self)@.take(len - left),
                self@ == old(self)@.skip(len - left),
                self.consumed() == old(self).consumed() + (len - left),
                self.chunks() == old(self).chunks(),
                self.wf(),
            decreases left,
        {
            let front = self.chunk();
            let take = if front.len() < left {
                front.len()
            } else {
                left
            };
            data.extend_from_slice(&front[0..take]);
            let ghost before = self@;
            match self.advance(take) {
                Ok(()) => {},
                Err(e) => { return Err(e); },
            }
            proof {
                let done = len - left;
                assert(front@.subrange(0, take as int) =~= before.take(take as int));
                assert(data@ =~= old(self)@.take(done) + before.take(take as int));
                assert(old(self)@.take(done) + before.take(take as int) =~= old(self)@.take(
                    done + take,
                ));
                assert(before.skip(take as int) =~= old(self)@.skip(done + take));
            }
            left -= take;
        }
        Ok(bytes_from_vec(data))
    }
}

} // verus!

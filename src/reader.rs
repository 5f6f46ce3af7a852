use vstd::prelude::*;
use crate::block::{FormatError, PrimitiveBlock};
use crate::block_decode::{block_error, decode_block, dense_count, is_block_object};
use crate::obj_types::StringOSMObj;

verus! {

/// How many objects a block that decodes holds.
pub open spec fn block_len(b: PrimitiveBlock) -> int {
    dense_count(b) + b.ways@.len() + b.relations@.len()
}

/// How many objects the blocks from index `i` on hold.
pub open spec fn blocks_len(s: Seq<PrimitiveBlock>, i: int) -> int
    decreases s.len() - i,
{
    if i < 0 || i >= s.len() {
        0
    } else {
        block_len(s[i]) + blocks_len(s, i + 1)
    }
}

proof fn lemma_skip_empty(s: Seq<PrimitiveBlock>, a: int, b: int)
    requires
        0 <= a <= b <= s.len(),
        forall|k: int| a <= k < b ==> block_len(#[trigger] s[k]) == 0,
    ensures
        blocks_len(s, a) == blocks_len(s, b),
    decreases b - a,
{
    if a < b {
        lemma_skip_empty(s, a + 1, b);
    }
}

/// How many objects the blocks from index `a` up to `b` hold.
pub open spec fn range_len(s: Seq<PrimitiveBlock>, a: int, b: int) -> int
    decreases b - a,
{
    if b <= a {
        0
    } else {
        range_len(s, a, b - 1) + block_len(s[b - 1])
    }
}

proof fn lemma_range_len_mono(s: Seq<PrimitiveBlock>, a: int, b: int, c: int)
    requires
        a <= b <= c,
    ensures
        0 <= range_len(s, a, b) <= range_len(s, a, c),
    decreases c - a,
{
    if b < c {
        lemma_range_len_mono(s, a, b, c - 1);
    } else if a < b {
        lemma_range_len_mono(s, a, b - 1, b - 1);
    }
}

/// `v` is `first` followed by the objects of blocks `a` up to `b`, each
/// block decoding without error and giving its objects in its order.
pub open spec fn reads_blocks(
    v: Seq<StringOSMObj>,
    first: Seq<StringOSMObj>,
    s: Seq<PrimitiveBlock>,
    a: int,
    b: int,
) -> bool {
    &&& v.len() == first.len() + range_len(s, a, b)
    &&& forall|j: int| 0 <= j < first.len() ==> v[j] == first[j]
    &&& forall|q: int| a <= q < b ==> block_error(#[trigger] s[q]) is None
    &&& forall|q: int, j: int|
        a <= q < b && first.len() + range_len(s, a, q) <= j < first.len() + range_len(s, a, q)
            + block_len(s[q]) ==> #[trigger] is_block_object(
            v[j],
            #[trigger] s[q],
            j - first.len() - range_len(s, a, q),
        )
}

/// Yields the objects of a list of blocks one at a time, in block order and,
/// within a block, in the order the block gives; it decodes a block only once
/// the objects of the one before are all taken.
pub struct BlockReader {
    blocks: Vec<PrimitiveBlock>,
    /// Index of the next block to decode.
    next_block: usize,
    /// The objects of the last decoded block not yet taken.
    current: Vec<StringOSMObj>,
    /// Index in its block of the first object of `current`.
    taken: Ghost<int>,
    sorted: bool,
}

impl BlockReader {
    /// The blocks read.
    pub closed spec fn source(&self) -> Seq<PrimitiveBlock> {
        self.blocks@
    }

    /// How many blocks have been decoded.
    pub closed spec fn blocks_started(&self) -> int {
        self.next_block as int
    }

    /// Where, in the last decoded block, the next object stands.
    pub closed spec fn position(&self) -> int {
        self.taken@
    }

    /// The objects of the last decoded block not yet taken.
    pub closed spec fn buffered(&self) -> Seq<StringOSMObj> {
        self.current@
    }

    /// The hint that objects come sorted by kind.
    pub closed spec fn sorted_hint(&self) -> bool {
        self.sorted
    }

    /// Each object still buffered is the object at its place in the last
    /// decoded block.
    pub open spec fn buffer_ok(&self) -> bool {
        self.buffered().len() > 0 ==> self.blocks_started() >= 1 && self.position() >= 0 && forall|i: int|
            0 <= i < self.buffered().len() ==> is_block_object(
                #[trigger] self.buffered()[i],
                self.source()[self.blocks_started() - 1],
                self.position() + i,
            )
    }

    pub closed spec fn wf(&self) -> bool {
        &&& self.next_block <= self.blocks@.len()
        &&& (self.current@.len() > 0 ==> self.next_block >= 1 && 0 <= self.taken@ && forall|i: int|
            0 <= i < self.current@.len() ==> is_block_object(
                #[trigger] self.current@[i],
                self.blocks@[self.next_block - 1],
                self.taken@ + i,
            ))
    }

    /// A reader over the given blocks.
    pub fn new(blocks: Vec<PrimitiveBlock>) -> (r: BlockReader)
        ensures
            r.wf(),
            r.buffer_ok(),
            r.source() == blocks@,
            r.blocks_started() == 0,
            r.buffered().len() == 0,
            !r.sorted_hint(),
    {
        BlockReader { blocks, next_block: 0, current: Vec::new(), taken: Ghost(0), sorted: false }
    }

    /// Sets the hint that objects come sorted by kind; it changes nothing that
    /// is read.
    pub fn set_sorted_assumption(&mut self, sorted_assumption: bool)
        requires
            old(self).wf(),
        ensures
            final(self).wf(),
            final(self).sorted_hint() == sorted_assumption,
            final(self).source() == old(self).source(),
            final(self).blocks_started() == old(self).blocks_started(),
            final(self).buffered() == old(self).buffered(),
            final(self).position() == old(self).position(),
    {
        self.sorted = sorted_assumption;
    }

    pub fn get_sorted_assumption(&mut self) -> (r: bool)
        ensures
            r == old(self).sorted_hint(),
            *final(self) == *old(self),
    {
        self.sorted
    }

    /// Gives the blocks back.
    pub fn into_inner(self) -> (r: Vec<PrimitiveBlock>)
        ensures
            r@ == self.source(),
    {
        self.blocks
    }

    /// The next object: the next one of the last decoded block, or else the
    /// first of the next block that holds any. `None` once every block is
    /// read; an error where a block to be decoded fails, no object of it
    /// being yielded.
    pub fn next(&mut self) -> (r: Result<Option<StringOSMObj>, FormatError>)
        requires
            old(self).wf(),
        ensures
            final(self).wf(),
            final(self).buffer_ok(),
            final(self).source() == old(self).source(),
            final(self).sorted_hint() == old(self).sorted_hint(),
            final(self).blocks_started() >= old(self).blocks_started(),
            forall|k: int|
                old(self).blocks_started() <= k < final(self).blocks_started() - 1 ==> block_error(
                    #[trigger] old(self).source()[k],
                ) is None && block_len(old(self).source()[k]) == 0,
            match r {
                Ok(Some(x)) => if old(self).buffered().len() > 0 {
                    &&& x == old(self).buffered()[0]
                    &&& final(self).buffered() == old(self).buffered().drop_first()
                    &&& final(self).blocks_started() == old(self).blocks_started()
                    &&& final(self).position() == old(self).position() + 1
                } else {
                    &&& final(self).blocks_started() > old(self).blocks_started()
                    &&& block_error(old(self).source()[final(self).blocks_started() - 1]) is None
                    &&& is_block_object(x, old(self).source()[final(self).blocks_started() - 1], 0)
                    &&& final(self).position() == 1
                    &&& final(self).buffered().len() == block_len(
                        old(self).source()[final(self).blocks_started() - 1],
                    ) - 1
                },
                Ok(None) => old(self).buffered().len() == 0 && final(self).buffered().len() == 0
                    && final(self).blocks_started()
                    == old(self).source().len() && forall|k: int|
                    old(self).blocks_started() <= k < old(self).source().len() ==> block_error(
                        #[trigger] old(self).source()[k],
                    ) is None && block_len(old(self).source()[k]) == 0,
                Err(e) => old(self).buffered().len() == 0 && final(self).blocks_started()
                    > old(self).blocks_started() && block_error(
                    old(self).source()[final(self).blocks_started() - 1],
                ) == Some(e) && final(self).buffered().len() == 0,
            },
    {
        if self.current.len() > 0 {
            let x = self.current.remove(0);
            proof {
                let t = self.taken@;
                self.taken = Ghost(t + 1);
                assert forall|i: int| 0 <= i < self.current@.len() implies is_block_object(
                    #[trigger] self.current@[i],
                    self.blocks@[self.next_block - 1],
                    self.taken@ + i,
                ) by {
                    assert(self.current@[i] == old(self).current@[i + 1]);
                }
                assert(self.current@ =~= old(self).current@.drop_first());
            }
            return Ok(Some(x));
        }
        let start = self.next_block;
        while self.next_block < self.blocks.len()
            invariant
                start == old(self).next_block,
                self.blocks@ == old(self).blocks@,
                self.sorted == old(self).sorted,
                self.current@.len() == 0,
                old(self).current@.len() == 0,
                start <= self.next_block <= self.blocks@.len(),
                forall|k: int|
                    start <= k < self.next_block ==> block_error(#[trigger] self.blocks@[k]) is None
                        && block_len(self.blocks@[k]) == 0,
            decreases self.blocks@.len() - self.next_block,
        {
            let k = self.next_block;
            self.next_block = k + 1;
            match decode_block(&self.blocks[k]) {
                Ok(objs) => {
                    if objs.len() > 0 {
                        let mut objs = objs;
                        let ghost all = objs@;
                        let x = objs.remove(0);
                        self.current = objs;
                        proof {
                            self.taken = Ghost(1);
                            assert(x == all[0]);
                            assert forall|i: int| 0 <= i < self.current@.len() implies is_block_object(
                                #[trigger] self.current@[i],
                                self.blocks@[self.next_block - 1],
                                self.taken@ + i,
                            ) by {
                                assert(self.current@[i] == all[i + 1]);
                            }
                        }
                        return Ok(Some(x));
                    }
                },
                Err(e) => {
                    return Err(e);
                },
            }
        }
        Ok(None)
    }

    /// Every object left, in order, as `next` yields them: the buffered ones,
    /// then those of each following block. Reading stops at the first block
    /// that fails; the objects before it are still returned, with its error.
    pub fn objects(&mut self) -> (r: (Vec<StringOSMObj>, Option<FormatError>))
        requires
            old(self).wf(),
        ensures
            final(self).wf(),
            final(self).source() == old(self).source(),
            final(self).sorted_hint() == old(self).sorted_hint(),
            final(self).buffered().len() == 0,
            match r.1 {
                None => final(self).blocks_started() == old(self).source().len() && reads_blocks(
                    r.0@,
                    old(self).buffered(),
                    old(self).source(),
                    old(self).blocks_started(),
                    final(self).blocks_started(),
                ),
                Some(e) => old(self).blocks_started() < final(self).blocks_started() && block_error(
                    old(self).source()[final(self).blocks_started() - 1],
                ) == Some(e) && reads_blocks(
                    r.0@,
                    old(self).buffered(),
                    old(self).source(),
                    old(self).blocks_started(),
                    final(self).blocks_started() - 1,
                ),
            },
    {
        let mut out: Vec<StringOSMObj> = Vec::new();
        std::mem::swap(&mut out, &mut self.current);
        let ghost first = out@;
        let ghost start = self.next_block as int;
        let ghost src = self.blocks@;
        proof {
            self.taken = Ghost(0);
        }
        while self.next_block < self.blocks.len()
            invariant
                self.blocks@ == src,
                src == old(self).blocks@,
                self.sorted == old(self).sorted,
                first == old(self).current@,
                start == old(self).next_block,
                self.current@.len() == 0,
                start <= self.next_block <= src.len(),
                reads_blocks(out@, first, src, start, self.next_block as int),
            decreases src.len() - self.next_block,
        {
            let k = self.next_block;
            self.next_block = k + 1;
            match decode_block(&self.blocks[k]) {
                Ok(objs) => {
                    let ghost prev = out@;
                    let ghost got = objs@;
                    let mut objs = objs;
                    out.append(&mut objs);
                    proof {
                        let kk = k as int;
                        assert(range_len(src, start, kk + 1) == range_len(src, start, kk) + block_len(src[kk]));
                        assert forall|q: int, j: int|
                            start <= q < kk + 1 && first.len() + range_len(src, start, q) <= j < first.len()
                                + range_len(src, start, q) + block_len(src[q]) implies #[trigger] is_block_object(
                            out@[j],
                            #[trigger] src[q],
                            j - first.len() - range_len(src, start, q),
                        ) by {
                            assert(out@ == prev + got);
                            if q < kk {
                                lemma_range_len_mono(src, start, q + 1, kk);
                                lemma_range_len_mono(src, start, q, q);
                                assert(range_len(src, start, q + 1) == range_len(src, start, q) + block_len(src[q]));
                                assert(j < prev.len());
                                assert(out@[j] == prev[j]);
                            } else {
                                lemma_range_len_mono(src, start, q, q);
                                assert(out@[j] == got[j - prev.len()]);
                            }
                        }
                        assert forall|j: int| 0 <= j < first.len() implies out@[j] == first[j] by {
                            lemma_range_len_mono(src, start, start, kk);
                            assert(out@ == prev + got);
                            assert(out@[j] == prev[j]);
                        }
                    }
                },
                Err(e) => {
                    return (out, Some(e));
                },
            }
        }
        (out, None)
    }

}

/// A reader that yields objects one at a time.
pub trait OSMReader: Sized {
    /// The reader's internal invariant holds.
    spec fn reader_ok(&self) -> bool;

    /// The hint that objects come sorted by kind.
    spec fn sorted_flag(&self) -> bool;

    /// Sets the hint that objects come sorted by kind (points, then lines,
    /// then relations); it never changes what is read.
    fn set_sorted_assumption(&mut self, sorted_assumption: bool)
        requires
            old(self).reader_ok(),
        ensures
            final(self).reader_ok(),
            final(self).sorted_flag() == sorted_assumption,
    ;

    fn get_sorted_assumption(&mut self) -> (r: bool)
        requires
            old(self).reader_ok(),
        ensures
            final(self).reader_ok(),
            r == old(self).sorted_flag(),
            final(self).sorted_flag() == old(self).sorted_flag(),
    ;

    fn assume_sorted(&mut self)
        requires
            old(self).reader_ok(),
        ensures
            final(self).reader_ok(),
            final(self).sorted_flag(),
    {
        self.set_sorted_assumption(true);
    }

    fn assume_unsorted(&mut self)
        requires
            old(self).reader_ok(),
        ensures
            final(self).reader_ok(),
            !final(self).sorted_flag(),
    {
        self.set_sorted_assumption(false);
    }

    /// The next object, `None` at the end.
    fn next(&mut self) -> (r: Result<Option<StringOSMObj>, FormatError>)
        requires
            old(self).reader_ok(),
        ensures
            final(self).reader_ok(),
            final(self).sorted_flag() == old(self).sorted_flag(),
    ;
}

impl OSMReader for BlockReader {
    closed spec fn reader_ok(&self) -> bool {
        self.wf()
    }

    closed spec fn sorted_flag(&self) -> bool {
        self.sorted_hint()
    }

    fn set_sorted_assumption(&mut self, sorted_assumption: bool) {
        BlockReader::set_sorted_assumption(self, sorted_assumption)
    }

    fn get_sorted_assumption(&mut self) -> (r: bool) {
        BlockReader::get_sorted_assumption(self)
    }

    fn next(&mut self) -> (r: Result<Option<StringOSMObj>, FormatError>) {
        BlockReader::next(self)
    }

    fn assume_sorted(&mut self)
        ensures
            final(self).source() == old(self).source(),
            final(self).blocks_started() == old(self).blocks_started(),
            final(self).buffered() == old(self).buffered(),
            final(self).position() == old(self).position(),
    {
        BlockReader::set_sorted_assumption(self, true);
    }

    fn assume_unsorted(&mut self)
        ensures
            final(self).source() == old(self).source(),
            final(self).blocks_started() == old(self).blocks_started(),
            final(self).buffered() == old(self).buffered(),
            final(self).position() == old(self).position(),
    {
        BlockReader::set_sorted_assumption(self, false);
    }
}

} // verus!

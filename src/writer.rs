use vstd::prelude::*;
use crate::base::OSMObjBase;
use crate::block::PrimitiveBlock;
use crate::block_decode::{block_error, dense_count, is_block_object};
use crate::block_encode::{encode_block, encode_error, is_block_encoding};
use crate::encode::EncodeError;
use crate::obj_types::StringOSMObj;
use crate::round_trip::{kind_rank, lemma_block_round_trip, sorted_by_kind};

verus! {

/// An error when writing objects.
#[derive(Debug, Clone, Copy, PartialEq, Eq, Structural)]
pub enum OSMWriteError {
    /// This format has no header to set.
    FormatDoesntSupportHeaders,
    /// Objects have already been written.
    AlreadyStarted,
    /// The writer was closed; no more objects can be written.
    AlreadyClosed,
    /// A block could not be encoded.
    Encode(EncodeError),
}

/// Every object keeps its internal invariant.
pub open spec fn all_wf(s: Seq<StringOSMObj>) -> bool {
    forall|j: int| 0 <= j < s.len() ==> (#[trigger] s[j]).wf()
}

/// `obj` ranks below the last buffered object, so it must start a new block
/// for the objects to come back in the order written.
pub open spec fn breaks(obj: StringOSMObj, b: Seq<StringOSMObj>) -> bool {
    b.len() > 0 && kind_rank(obj) < kind_rank(b.last())
}

/// The batch that `obj` joins.
pub open spec fn next_batch(b: Seq<StringOSMObj>, obj: StringOSMObj) -> Seq<StringOSMObj> {
    if breaks(obj, b) {
        seq![obj]
    } else {
        b.push(obj)
    }
}

fn kind_rank_of(x: &StringOSMObj) -> (r: u8)
    ensures
        r as int == kind_rank(*x),
{
    match x {
        StringOSMObj::Node(_) => 0,
        StringOSMObj::Way(_) => 1,
        StringOSMObj::Relation(_) => 2,
    }
}

/// Gathers objects into blocks of at most a set number, encoding each block
/// once it is full, when the next object's kind ranks below the last one's
/// (points, then lines, then relations), and the last one on close. Dropping
/// the writer before close loses the objects still buffered, and only those.
pub struct BlockWriter {
    pending: Vec<StringOSMObj>,
    blocks: Vec<PrimitiveBlock>,
    max_objects: usize,
    open: bool,
    batches: Ghost<Seq<Seq<StringOSMObj>>>,
}

impl BlockWriter {
    /// The objects of each block encoded so far, in order.
    pub closed spec fn flushed(&self) -> Seq<Seq<StringOSMObj>> {
        self.batches@
    }

    /// The blocks encoded so far.
    pub closed spec fn encoded(&self) -> Seq<PrimitiveBlock> {
        self.blocks@
    }

    /// The objects written and not yet encoded.
    pub closed spec fn buffered(&self) -> Seq<StringOSMObj> {
        self.pending@
    }

    /// Every object written so far, in order.
    pub open spec fn written(&self) -> Seq<StringOSMObj> {
        self.flushed().flatten() + self.buffered()
    }

    /// The writer still takes objects.
    pub closed spec fn is_open_spec(&self) -> bool {
        self.open
    }

    /// The most objects a block holds.
    pub closed spec fn capacity(&self) -> nat {
        self.max_objects as nat
    }

    closed spec fn batches_ok(&self) -> bool {
        &&& self.max_objects >= 1
        &&& self.blocks@.len() == self.batches@.len()
        &&& forall|i: int|
            0 <= i < self.blocks@.len() ==> is_block_encoding(
                #[trigger] self.blocks@[i],
                self.batches@[i],
            )
        &&& forall|i: int|
            0 <= i < self.batches@.len() ==> 1 <= (#[trigger] self.batches@[i]).len()
                <= self.max_objects && sorted_by_kind(self.batches@[i]) && all_wf(self.batches@[i])
        &&& sorted_by_kind(self.pending@)
        &&& all_wf(self.pending@)
    }

    /// Each encoded block encodes its batch; batches hold between one and
    /// `capacity()` objects, sorted by kind; no full batch waits.
    pub closed spec fn wf(&self) -> bool {
        &&& self.batches_ok()
        &&& self.pending@.len() < self.max_objects
    }

    /// What a writer's invariant gives its callers: each batch holds between
    /// one and `capacity()` objects, in kind order, and its block encodes it.
    pub proof fn lemma_batches(&self)
        requires
            self.wf(),
        ensures
            self.encoded().len() == self.flushed().len(),
            forall|i: int|
                0 <= i < self.flushed().len() ==> 1 <= (#[trigger] self.flushed()[i]).len()
                    <= self.capacity() && sorted_by_kind(self.flushed()[i]) && is_block_encoding(
                    self.encoded()[i],
                    self.flushed()[i],
                ),
    {
        assert forall|i: int| 0 <= i < self.flushed().len() implies 1 <= (#[trigger] self.flushed()[i]).len()
            <= self.capacity() && sorted_by_kind(self.flushed()[i]) && is_block_encoding(
            self.encoded()[i],
            self.flushed()[i],
        ) by {
            assert(is_block_encoding(self.blocks@[i], self.batches@[i]));
        }
    }

    /// Round trip through the writer: every encoded block decodes without
    /// error to exactly the objects written into it, in the order written,
    /// whatever the order of kinds in the stream.
    pub proof fn lemma_writer_round_trip(&self)
        requires
            self.wf(),
        ensures
            forall|i: int|
                0 <= i < self.flushed().len() ==> block_error(#[trigger] self.encoded()[i]) is None
                    && dense_count(self.encoded()[i]) + self.encoded()[i].ways@.len()
                    + self.encoded()[i].relations@.len() == self.flushed()[i].len(),
            forall|i: int, j: int|
                0 <= i < self.flushed().len() && 0 <= j < self.flushed()[i].len() ==> is_block_object(
                    #[trigger] self.flushed()[i][j],
                    self.encoded()[i],
                    j,
                ),
    {
        assert forall|i: int| 0 <= i < self.flushed().len() implies block_error(#[trigger] self.encoded()[i]) is None
            && dense_count(self.encoded()[i]) + self.encoded()[i].ways@.len()
            + self.encoded()[i].relations@.len() == self.flushed()[i].len() && forall|j: int|
            0 <= j < self.flushed()[i].len() ==> is_block_object(self.flushed()[i][j], self.encoded()[i], j) by {
            assert(is_block_encoding(self.blocks@[i], self.batches@[i]));
            assert(1 <= self.batches@[i].len());
            lemma_block_round_trip(self.batches@[i], self.blocks@[i]);
        }
        assert forall|i: int, j: int|
            0 <= i < self.flushed().len() && 0 <= j < self.flushed()[i].len() implies is_block_object(
            #[trigger] self.flushed()[i][j],
            self.encoded()[i],
            j,
        ) by {
            assert(is_block_encoding(self.blocks@[i], self.batches@[i]));
            assert(1 <= self.batches@[i].len());
            lemma_block_round_trip(self.batches@[i], self.blocks@[i]);
        }
    }

    /// A writer that puts at most `max_objects` objects in a block.
    pub fn new(max_objects: usize) -> (r: BlockWriter)
        requires
            max_objects >= 1,
        ensures
            r.wf(),
            r.is_open_spec(),
            r.capacity() == max_objects,
            r.flushed().len() == 0,
            r.buffered().len() == 0,
    {
        let r = BlockWriter {
            pending: Vec::new(),
            blocks: Vec::new(),
            max_objects,
            open: true,
            batches: Ghost(Seq::empty()),
        };
        assert(sorted_by_kind(r.pending@));
        r
    }

    /// True iff more objects can be written.
    pub fn is_open(&self) -> (r: bool)
        ensures
            r == self.is_open_spec(),
    {
        self.open
    }

    /// The blocks encoded so far, each encoding its batch of objects.
    pub fn blocks(&self) -> (r: &Vec<PrimitiveBlock>)
        requires
            self.wf(),
        ensures
            r@ == self.encoded(),
            r@.len() == self.flushed().len(),
            forall|i: int| 0 <= i < r@.len() ==> is_block_encoding(#[trigger] r@[i], self.flushed()[i]),
    {
        &self.blocks
    }

    /// Gives the encoded blocks back; objects not yet encoded are lost.
    pub fn into_inner(self) -> (r: Vec<PrimitiveBlock>)
        requires
            self.wf(),
        ensures
            r@ == self.encoded(),
            r@.len() == self.flushed().len(),
            forall|i: int| 0 <= i < r@.len() ==> is_block_encoding(#[trigger] r@[i], self.flushed()[i]),
    {
        self.blocks
    }

    /// Encodes the buffered objects as one block; on failure they are dropped.
    fn flush(&mut self) -> (r: Result<(), OSMWriteError>)
        requires
            old(self).batches_ok(),
            old(self).pending@.len() <= old(self).max_objects,
            old(self).pending@.len() > 0,
        ensures
            final(self).wf(),
            final(self).open == old(self).open,
            final(self).max_objects == old(self).max_objects,
            final(self).pending@.len() == 0,
            r is Ok ==> final(self).batches@ == old(self).batches@.push(old(self).pending@)
                && final(self).blocks@.subrange(0, old(self).blocks@.len() as int) == old(self).blocks@,
            r is Err ==> final(self).blocks@ == old(self).blocks@ && final(self).batches@
                == old(self).batches@ && r->Err_0 is Encode && encode_error(
                old(self).pending@,
                r->Err_0->Encode_0,
            ),
    {
        let mut batch: Vec<StringOSMObj> = Vec::new();
        std::mem::swap(&mut batch, &mut self.pending);
        let ghost objs = batch@;
        assert(sorted_by_kind(self.pending@));
        match encode_block(batch) {
            Ok(b) => {
                let ghost prev = self.blocks@;
                let ghost pb = self.batches@;
                self.blocks.push(b);
                self.batches = Ghost(self.batches@.push(objs));
                proof {
                    assert(self.blocks@.subrange(0, prev.len() as int) =~= prev);
                    assert forall|i: int| 0 <= i < self.blocks@.len() implies is_block_encoding(
                        #[trigger] self.blocks@[i],
                        self.batches@[i],
                    ) by {
                        if i < prev.len() {
                            assert(self.blocks@[i] == prev[i]);
                            assert(self.batches@[i] == pb[i]);
                        }
                    }
                    assert forall|i: int| 0 <= i < self.batches@.len() implies 1 <= (
                    #[trigger] self.batches@[i]).len() <= self.max_objects && sorted_by_kind(
                        self.batches@[i],
                    ) && all_wf(self.batches@[i]) by {
                        if i < pb.len() {
                            assert(self.batches@[i] == pb[i]);
                        }
                    }
                }
                Ok(())
            },
            Err(e) => Err(OSMWriteError::Encode(e)),
        }
    }

    /// Writes one object. After close this fails with `AlreadyClosed` and
    /// changes nothing. Otherwise the object joins the buffer; the buffer is
    /// first encoded as a block when the object's kind ranks below the last
    /// buffered one's, and a full buffer is encoded as a block. A failure
    /// comes only from a batch that cannot be encoded, and drops the buffer.
    pub fn write_obj(&mut self, obj: StringOSMObj) -> (r: Result<(), OSMWriteError>)
        requires
            old(self).wf(),
            obj.wf(),
        ensures
            final(self).wf(),
            final(self).capacity() == old(self).capacity(),
            final(self).is_open_spec() == old(self).is_open_spec(),
            !old(self).is_open_spec() ==> r == Err::<(), OSMWriteError>(OSMWriteError::AlreadyClosed)
                && final(self).flushed() == old(self).flushed() && final(self).buffered()
                == old(self).buffered(),
            old(self).is_open_spec() ==> final(self).flushed().subrange(
                0,
                old(self).flushed().len() as int,
            ) == old(self).flushed(),
            old(self).is_open_spec() && r is Ok ==> final(self).written() == old(self).written().push(
                obj,
            ),
            old(self).is_open_spec() && r is Ok ==> if next_batch(old(self).buffered(), obj).len()
                < old(self).capacity() {
                final(self).buffered() == next_batch(old(self).buffered(), obj)
            } else {
                final(self).buffered().len() == 0
            },
            old(self).is_open_spec() && r is Err ==> r->Err_0 is Encode && final(self).buffered().len()
                == 0 && ((breaks(obj, old(self).buffered()) && encode_error(
                old(self).buffered(),
                r->Err_0->Encode_0,
            )) || (next_batch(old(self).buffered(), obj).len() >= old(self).capacity()
                && encode_error(next_batch(old(self).buffered(), obj), r->Err_0->Encode_0))),
    {
        if !self.open {
            return Err(OSMWriteError::AlreadyClosed);
        }
        let ghost w0 = self.written();
        let ghost b1 = self.pending@;
        let ghost f0 = self.batches@;
        if self.pending.len() > 0 && kind_rank_of(&obj) < kind_rank_of(&self.pending[self.pending.len() - 1]) {
            match self.flush() {
                Ok(()) => {
                    proof {
                        f0.lemma_flatten_push(b1);
                    }
                },
                Err(e) => {
                    proof {
                        assert(f0.subrange(0, f0.len() as int) =~= f0);
                    }
                    return Err(e);
                },
            }
        }
        let ghost f1 = self.batches@;
        let ghost before = self.pending@;
        proof {
            assert(f1.subrange(0, f0.len() as int) =~= f0);
        }
        self.pending.push(obj);
        proof {
            assert(self.pending@ =~= next_batch(b1, obj));
            assert forall|i: int, j: int| 0 <= i < j < self.pending@.len() implies kind_rank(
                #[trigger] self.pending@[i],
            ) <= kind_rank(#[trigger] self.pending@[j]) by {
                if j == self.pending@.len() - 1 && i < j {
                    assert(self.pending@[i] == before[i]);
                    if before.len() > 0 {
                        assert(kind_rank(before[i]) <= kind_rank(before[before.len() - 1]));
                    }
                } else {
                    assert(self.pending@[i] == before[i]);
                    assert(self.pending@[j] == before[j]);
                }
            }
            assert forall|j: int| 0 <= j < self.pending@.len() implies (#[trigger] self.pending@[j]).wf() by {
                if j < before.len() {
                    assert(self.pending@[j] == before[j]);
                }
            }
            assert(self.written() =~= w0.push(obj));
        }
        if self.pending.len() >= self.max_objects {
            let ghost nb = self.pending@;
            let res = self.flush();
            proof {
                if res is Ok {
                    f1.lemma_flatten_push(nb);
                    assert(self.written() =~= self.batches@.flatten());
                    assert(self.batches@.subrange(0, f0.len() as int) =~= f0);
                } else {
                    assert(self.batches@.subrange(0, f0.len() as int) =~= f0);
                }
            }
            res
        } else {
            Ok(())
        }
    }

    /// Closes the writer: encodes any buffered objects as a last block; after
    /// that no object can be written. A second close does nothing. A failure
    /// comes only from a last batch that cannot be encoded, which is dropped.
    pub fn close(&mut self) -> (r: Result<(), OSMWriteError>)
        requires
            old(self).wf(),
        ensures
            final(self).wf(),
            !final(self).is_open_spec(),
            final(self).capacity() == old(self).capacity(),
            final(self).buffered().len() == 0 || !old(self).is_open_spec(),
            !old(self).is_open_spec() ==> r is Ok && final(self).flushed() == old(self).flushed()
                && final(self).buffered() == old(self).buffered(),
            old(self).is_open_spec() && r is Ok ==> final(self).flushed().flatten() == old(self).written()
                && (if old(self).buffered().len() > 0 {
                final(self).flushed() == old(self).flushed().push(old(self).buffered())
            } else {
                final(self).flushed() == old(self).flushed()
            }),
            old(self).is_open_spec() && r is Err ==> r->Err_0 is Encode && old(self).buffered().len() > 0
                && encode_error(old(self).buffered(), r->Err_0->Encode_0) && final(self).flushed()
                == old(self).flushed(),
            final(self).flushed().subrange(0, old(self).flushed().len() as int) == old(self).flushed(),
    {
        if !self.open {
            assert(self.batches@.subrange(0, self.batches@.len() as int) =~= self.batches@);
            return Ok(());
        }
        self.open = false;
        if self.pending.len() > 0 {
            let ghost pend = self.pending@;
            let ghost b0 = self.batches@;
            let res = self.flush();
            proof {
                if res is Ok {
                    b0.lemma_flatten_push(pend);
                }
                assert(self.batches@.subrange(0, b0.len() as int) =~= b0);
            }
            res
        } else {
            proof {
                assert(self.written() =~= self.batches@.flatten());
                assert(self.batches@.subrange(0, self.batches@.len() as int) =~= self.batches@);
            }
            Ok(())
        }
    }

    /// Headers are not supported by this writer.
    pub fn set_header(&mut self, key: &str, value: &str) -> (r: Result<(), OSMWriteError>)
        ensures
            r == Err::<(), OSMWriteError>(OSMWriteError::FormatDoesntSupportHeaders),
            *final(self) == *old(self),
    {
        Err(OSMWriteError::FormatDoesntSupportHeaders)
    }

    /// Writes all the objects, in order, into a new writer and closes it,
    /// whether or not a write fails. A failure comes only from a run of
    /// consecutive objects that cannot be encoded as one block.
    pub fn from_iter(max_objects: usize, objs_in: Vec<StringOSMObj>) -> (r: Result<
        BlockWriter,
        OSMWriteError,
    >)
        requires
            max_objects >= 1,
            all_wf(objs_in@),
        ensures
            match r {
                Ok(w) => w.wf() && !w.is_open_spec() && w.buffered().len() == 0 && w.capacity()
                    == max_objects && w.flushed().flatten() == objs_in@,
                Err(e) => e is Encode && exists|i: int, j: int|
                    0 <= i <= j <= objs_in@.len() && encode_error(
                        #[trigger] objs_in@.subrange(i, j),
                        e->Encode_0,
                    ),
            },
    {
        let mut w = BlockWriter::new(max_objects);
        let ghost all = objs_in@;
        let mut objs = objs_in;
        let n = objs.len();
        let mut i: usize = 0;
        let ghost mut p0: int = 0;
        proof {
            assert(w.batches@.flatten() =~= Seq::<StringOSMObj>::empty());
            assert(w.written() =~= all.take(0));
            assert(w.buffered() =~= all.subrange(0, 0));
        }
        while i < n
            invariant
                n == all.len(),
                all == objs_in@,
                all_wf(all),
                0 <= i <= n,
                objs@ == all.subrange(i as int, n as int),
                w.wf(),
                w.is_open_spec(),
                w.capacity() == max_objects,
                w.written() == all.take(i as int),
                0 <= p0 <= i,
                w.buffered() == all.subrange(p0, i as int),
            decreases n - i,
        {
            let x = objs.remove(0);
            proof {
                assert(x == all[i as int]);
                assert(objs@ =~= all.subrange(i + 1, n as int));
                assert(all.take(i + 1) =~= all.take(i as int).push(x));
            }
            let ghost b = w.buffered();
            match w.write_obj(x) {
                Ok(()) => {
                    proof {
                        if breaks(x, b) {
                            assert(next_batch(b, x) =~= all.subrange(i as int, i + 1));
                            if next_batch(b, x).len() < max_objects {
                                p0 = i as int;
                            } else {
                                p0 = i + 1;
                                assert(w.buffered() =~= all.subrange(p0, i + 1));
                            }
                        } else {
                            assert(next_batch(b, x) =~= all.subrange(p0, i + 1));
                            if next_batch(b, x).len() >= max_objects {
                                p0 = i + 1;
                                assert(w.buffered() =~= all.subrange(p0, i + 1));
                            }
                        }
                    }
                },
                Err(e) => {
                    proof {
                        let c = e->Encode_0;
                        if breaks(x, b) && encode_error(b, c) {
                            assert(encode_error(all.subrange(p0, i as int), c));
                            assert(exists|a: int, z: int| 0 <= a <= z <= all.len() && encode_error(#[trigger] all.subrange(a, z), c));
                        } else if breaks(x, b) {
                            assert(next_batch(b, x) =~= all.subrange(i as int, i + 1));
                            assert(encode_error(all.subrange(i as int, i + 1), c));
                            assert(exists|a: int, z: int| 0 <= a <= z <= all.len() && encode_error(#[trigger] all.subrange(a, z), c));
                        } else {
                            assert(next_batch(b, x) =~= all.subrange(p0, i + 1));
                            assert(encode_error(all.subrange(p0, i + 1), c));
                            assert(exists|a: int, z: int| 0 <= a <= z <= all.len() && encode_error(#[trigger] all.subrange(a, z), c));
                        }
                        assert(e == OSMWriteError::Encode(c));
                    }
                    let _ = w.close();
                    return Err(e);
                },
            }
            i = i + 1;
        }
        let ghost b = w.buffered();
        match w.close() {
            Ok(()) => {
                assert(all.take(n as int) == all);
                Ok(w)
            },
            Err(e) => {
                proof {
                    assert(encode_error(all.subrange(p0, n as int), e->Encode_0));
                }
                Err(e)
            },
        }
    }
}

/// A writer of objects: open until closed, then refusing further objects.
pub trait OSMWriter: Sized {
    /// The writer's internal invariant holds.
    spec fn writer_ok(&self) -> bool;

    /// The writer still takes objects.
    spec fn accepts(&self) -> bool;

    /// Closes this writer: whatever it holds is written out, and no more
    /// objects can be written.
    fn close(&mut self) -> (r: Result<(), OSMWriteError>)
        requires
            old(self).writer_ok(),
        ensures
            final(self).writer_ok(),
            !final(self).accepts(),
    ;

    /// True iff more objects can be written.
    fn is_open(&self) -> (r: bool)
        ensures
            r == self.accepts(),
    ;

    /// Writes an object; after close this fails with `AlreadyClosed`.
    fn write_obj(&mut self, obj: StringOSMObj) -> (r: Result<(), OSMWriteError>)
        requires
            old(self).writer_ok(),
            obj.wf(),
        ensures
            final(self).writer_ok(),
            final(self).accepts() == old(self).accepts(),
            !old(self).accepts() ==> r == Err::<(), OSMWriteError>(OSMWriteError::AlreadyClosed),
    ;

    /// Sets a header entry, where the format has headers.
    fn set_header(&mut self, key: &str, value: &str) -> (r: Result<(), OSMWriteError>);
}

impl OSMWriter for BlockWriter {
    closed spec fn writer_ok(&self) -> bool {
        self.wf()
    }

    closed spec fn accepts(&self) -> bool {
        self.is_open_spec()
    }

    fn close(&mut self) -> (r: Result<(), OSMWriteError>) {
        BlockWriter::close(self)
    }

    fn is_open(&self) -> (r: bool) {
        BlockWriter::is_open(self)
    }

    fn write_obj(&mut self, obj: StringOSMObj) -> (r: Result<(), OSMWriteError>) {
        BlockWriter::write_obj(self, obj)
    }

    fn set_header(&mut self, key: &str, value: &str) -> (r: Result<(), OSMWriteError>)
        ensures
            r == Err::<(), OSMWriteError>(OSMWriteError::FormatDoesntSupportHeaders),
    {
        BlockWriter::set_header(self, key, value)
    }
}

} // verus!

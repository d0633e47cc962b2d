//! The block-structured garbage queue.
//!
//! An unbounded FIFO of deferred garbage units, built from fixed-capacity
//! blocks chained head to tail.  Producers append at the tail; the single
//! reclaiming consumer removes whole blocks from the head.  Each block
//! records the global sequence index of its first slot, so the offset of a
//! slot inside its block is plain arithmetic on indices.  Filling the last
//! slot of a block yields a notification carrying the id of the block just
//! sealed; exactly one notification is produced per sealed block.

use vstd::prelude::*;
use vstd::arithmetic::div_mod::{lemma_mod_multiples_vanish, lemma_small_mod};

verus! {

/// The number of slots in one block: the unit of batching and reclamation.
pub const BLOCK_CAP: usize = 32;

/// A fixed-capacity batch of deferred garbage units.
struct Block<T> {
    /// The global sequence index of this block's first slot.
    start_index: usize,
    /// The slots written so far, in the order their indices were claimed.
    slots: Vec<T>,
}

impl<T> Block<T> {
    /// Creates an empty block that starts at `start_index`.
    fn new(start_index: usize) -> (b: Block<T>)
        ensures
            b.start_index == start_index,
            b.slots@.len() == 0,
    {
        Block { start_index, slots: Vec::new() }
    }
}

/// The garbage queue: an ordered sequence of deferred garbage units.
///
/// The view of the queue is the sequence of items currently held, oldest
/// first.  `pushed()` counts every item ever appended and `reclaimed()`
/// every item ever destroyed, so `pushed() - reclaimed()` is the length of
/// the view.
pub struct Queue<T> {
    /// The index of the next slot to claim: the number of items ever pushed.
    tail_index: usize,
    /// The chain of blocks from head to tail.  Every block but the last is
    /// sealed (full); the last is the block producers currently write.
    blocks: Vec<Block<T>>,
}

impl<T> View for Queue<T> {
    type V = Seq<T>;

    closed spec fn view(&self) -> Seq<T> {
        Queue::<T>::blocks_items(self.blocks@)
    }
}

/// The notification emitted by the push that fills a block: the id of the
/// sealed block, counting from 1, once every `BLOCK_CAP` items.
pub open spec fn block_note(new_count: nat) -> Option<nat> {
    if new_count > 0 && new_count % (BLOCK_CAP as nat) == 0 {
        Some(new_count / (BLOCK_CAP as nat))
    } else {
        None
    }
}

impl<T> Queue<T> {
    /// The items held by a chain of blocks, head block first.
    spec fn blocks_items(bs: Seq<Block<T>>) -> Seq<T>
        decreases bs.len(),
    {
        if bs.len() == 0 {
            Seq::empty()
        } else {
            bs[0].slots@ + Queue::<T>::blocks_items(bs.skip(1))
        }
    }

    /// The number of items ever pushed.
    pub closed spec fn pushed(&self) -> nat {
        self.tail_index as nat
    }

    /// The number of items ever reclaimed (destroyed from the head).
    pub closed spec fn reclaimed(&self) -> nat {
        self.blocks[0].start_index as nat
    }

    /// Well-formedness: the chain is never empty, every block but the last
    /// is sealed, block start indices advance by `BLOCK_CAP`, and the tail
    /// index points into the last block.
    pub closed spec fn wf(&self) -> bool {
        &&& self.blocks.len() >= 1
        &&& (forall|i: int|
            0 <= i < self.blocks.len() ==> #[trigger] self.blocks[i].start_index as int
                == self.blocks[0].start_index + BLOCK_CAP * i)
        &&& (forall|i: int|
            0 <= i < self.blocks.len() - 1 ==> #[trigger] self.blocks[i].slots@.len()
                == BLOCK_CAP)
        &&& self.blocks[0].start_index as int % (BLOCK_CAP as int) == 0
        &&& self.blocks@.last().slots@.len() < BLOCK_CAP
        &&& self.tail_index as int == self.blocks@.last().start_index
            + self.blocks@.last().slots@.len()
    }

    proof fn lemma_items_of_empty(bs: Seq<Block<T>>)
        requires
            bs.len() == 0,
        ensures
            Queue::<T>::blocks_items(bs) == Seq::<T>::empty(),
    {
    }

    /// The length of the items of a chain whose blocks are all sealed but
    /// possibly the last.
    proof fn lemma_items_len(bs: Seq<Block<T>>)
        requires
            bs.len() >= 1,
            forall|i: int| 0 <= i < bs.len() - 1 ==> #[trigger] bs[i].slots@.len() == BLOCK_CAP,
        ensures
            Queue::<T>::blocks_items(bs).len() == BLOCK_CAP * (bs.len() - 1)
                + bs.last().slots@.len(),
        decreases bs.len(),
    {
        if bs.len() == 1 {
            assert(bs.skip(1).len() == 0);
            Queue::<T>::lemma_items_of_empty(bs.skip(1));
        } else {
            let rest = bs.skip(1);
            assert(forall|i: int|
                0 <= i < rest.len() - 1 ==> #[trigger] rest[i].slots@.len() == BLOCK_CAP)
                by {
                assert(forall|i: int| 0 <= i < rest.len() - 1 ==> rest[i] == bs[i + 1]);
            }
            Queue::<T>::lemma_items_len(rest);
            assert(rest.last() == bs.last());
            assert(bs[0].slots@.len() == BLOCK_CAP);
        }
    }

    /// Appending an item to the last block of a chain appends it to the
    /// items of the chain.
    proof fn lemma_items_append_last(bs: Seq<Block<T>>, b: Block<T>, t: T)
        requires
            bs.len() >= 1,
            b.slots@ == bs.last().slots@.push(t),
        ensures
            Queue::<T>::blocks_items(bs.drop_last().push(b))
                == Queue::<T>::blocks_items(bs).push(t),
        decreases bs.len(),
    {
        let updated = bs.drop_last().push(b);
        if bs.len() == 1 {
            assert(updated =~= seq![b]);
            assert(updated.skip(1).len() == 0);
            assert(bs.skip(1).len() == 0);
            Queue::<T>::lemma_items_of_empty(updated.skip(1));
            Queue::<T>::lemma_items_of_empty(bs.skip(1));
            assert(Queue::<T>::blocks_items(updated) =~= Queue::<T>::blocks_items(bs).push(t));
        } else {
            let rest = bs.skip(1);
            assert(rest.last() == bs.last());
            Queue::<T>::lemma_items_append_last(rest, b, t);
            assert(updated.skip(1) =~= rest.drop_last().push(b));
            assert(updated[0] == bs[0]);
            assert(Queue::<T>::blocks_items(updated) =~= Queue::<T>::blocks_items(bs).push(t));
        }
    }

    /// Appending an empty block to a chain leaves its items unchanged.
    proof fn lemma_items_push_empty(bs: Seq<Block<T>>, b: Block<T>)
        requires
            b.slots@.len() == 0,
        ensures
            Queue::<T>::blocks_items(bs.push(b)) == Queue::<T>::blocks_items(bs),
        decreases bs.len(),
    {
        if bs.len() == 0 {
            assert(bs.push(b).skip(1).len() == 0);
            Queue::<T>::lemma_items_of_empty(bs.push(b).skip(1));
            Queue::<T>::lemma_items_of_empty(bs);
            assert(b.slots@ =~= Seq::<T>::empty());
            assert(Queue::<T>::blocks_items(bs.push(b)) =~= Queue::<T>::blocks_items(bs));
        } else {
            Queue::<T>::lemma_items_push_empty(bs.skip(1), b);
            assert(bs.push(b).skip(1) =~= bs.skip(1).push(b));
            assert(bs.push(b)[0] == bs[0]);
            assert(Queue::<T>::blocks_items(bs.push(b)) =~= Queue::<T>::blocks_items(bs));
        }
    }

    /// The queue holds exactly the items pushed and not yet reclaimed.
    pub proof fn lemma_view_len(&self)
        requires
            self.wf(),
        ensures
            self@.len() == self.pushed() - self.reclaimed(),
    {
        Queue::<T>::lemma_items_len(self.blocks@);
        assert(self.blocks@[self.blocks@.len() - 1].start_index as int
            == self.blocks@[0].start_index + BLOCK_CAP * (self.blocks@.len() - 1));
    }

    /// Creates a new, empty queue.
    pub fn new() -> (q: Queue<T>)
        ensures
            q.wf(),
            q@ == Seq::<T>::empty(),
            q.pushed() == 0,
            q.reclaimed() == 0,
    {
        let mut blocks: Vec<Block<T>> = Vec::new();
        blocks.push(Block::new(0));
        let q = Queue { tail_index: 0, blocks };
        proof {
            assert(q.blocks@.skip(1).len() == 0);
            Queue::<T>::lemma_items_of_empty(q.blocks@.skip(1));
            assert(q@ =~= Seq::<T>::empty());
        }
        q
    }

    /// The number of items ever pushed.
    pub fn total_pushed(&self) -> (n: usize)
        ensures
            n as nat == self.pushed(),
    {
        self.tail_index
    }

    /// The number of items currently held.
    pub fn len(&self) -> (n: usize)
        requires
            self.wf(),
        ensures
            n as nat == self@.len(),
            n as nat == self.pushed() - self.reclaimed(),
    {
        proof {
            Queue::<T>::lemma_items_len(self.blocks@);
        }
        self.tail_index - self.blocks[0].start_index
    }

    /// Lock-free insert at the tail.
    ///
    /// Claims the next slot index, writes the item into the reserved slot of
    /// the tail block, and — when that slot was the block's last — installs
    /// the successor block and returns the sealed block's id, to be sent to
    /// the reclamation driver.  Exactly one push per block returns a
    /// notification: the one that claims the block's final slot.
    pub fn push(&mut self, t: T) -> (note: Option<usize>)
        requires
            old(self).wf(),
            old(self).pushed() + BLOCK_CAP < usize::MAX,
        ensures
            final(self).wf(),
            final(self)@ == old(self)@.push(t),
            final(self).pushed() == old(self).pushed() + 1,
            final(self).reclaimed() == old(self).reclaimed(),
            (note is Some) == (block_note(old(self).pushed() + 1) is Some),
            note matches Some(id) ==> block_note(old(self).pushed() + 1) == Some(id as nat),
    {
        let ghost prev = *self;
        let tail_index = self.tail_index;
        let nblocks = self.blocks.len();
        let tail_start = self.blocks[nblocks - 1].start_index;
        // The offset of the claimed slot inside the tail block.
        let offset = tail_index - tail_start;
        // Claim the slot by advancing the tail index.
        let new_index = tail_index + 1;
        self.tail_index = new_index;
        // Write the item into the reserved slot.
        let mut blk = self.blocks.pop().unwrap();
        blk.slots.push(t);
        proof {
            Queue::<T>::lemma_items_append_last(prev.blocks@, blk, t);
        }
        self.blocks.push(blk);
        assert(self.blocks@ =~= prev.blocks@.drop_last().push(blk));
        assert(self@ == prev@.push(t));
        proof {
            // The claimed index sits `BLOCK_CAP * (nblocks - 1)` past the
            // head block's start, which is itself a multiple of BLOCK_CAP.
            let cap = BLOCK_CAP as int;
            let base = prev.blocks[0].start_index as int / cap + (nblocks - 1);
            assert(tail_start as int == cap * base) by (nonlinear_arith)
                requires
                    tail_start as int == prev.blocks[0].start_index + cap * (nblocks as int - 1),
                    prev.blocks[0].start_index as int % cap == 0,
                    base == prev.blocks[0].start_index as int / cap + (nblocks - 1),
                    cap == 32,
            ;
            lemma_mod_multiples_vanish(base, offset as int + 1, cap);
            if offset + 1 < BLOCK_CAP {
                lemma_small_mod((offset + 1) as nat, BLOCK_CAP as nat);
            }
        }
        if offset + 1 == BLOCK_CAP {
            // The block was sealed by this push: eagerly install its
            // successor so later producers find room, and report the id of
            // the block that just filled.
            let successor = Block::new(tail_start + BLOCK_CAP);
            proof {
                Queue::<T>::lemma_items_push_empty(self.blocks@, successor);
            }
            self.blocks.push(successor);
            Some(new_index / BLOCK_CAP)
        } else {
            None
        }
    }

    /// Destroys every item of the head block and unlinks the block.
    ///
    /// The caller must guarantee that no reader still holds a reference into
    /// the head block, and that the head block is sealed; the reclamation
    /// driver enforces both through the epoch wait.
    pub fn drop_bags_per_block(&mut self)
        requires
            old(self).wf(),
            old(self)@.len() >= BLOCK_CAP,
        ensures
            final(self).wf(),
            final(self)@ == old(self)@.skip(BLOCK_CAP as int),
            final(self).pushed() == old(self).pushed(),
            final(self).reclaimed() == old(self).reclaimed() + BLOCK_CAP,
    {
        let ghost prev = *self;
        proof {
            Queue::<T>::lemma_items_len(self.blocks@);
            // A head block distinct from the tail block is sealed.
            assert(self.blocks.len() >= 2);
        }
        let head = self.blocks.remove(0);
        proof {
            assert(self.blocks@ =~= prev.blocks@.skip(1));
            assert(prev@ == prev.blocks@[0].slots@ + Queue::<T>::blocks_items(prev.blocks@.skip(1)));
            assert(self@ =~= prev@.skip(BLOCK_CAP as int));
            assert(forall|i: int|
                0 <= i < self.blocks.len() ==> #[trigger] self.blocks@[i] == prev.blocks@[i + 1]);
        }
        // `head` is destroyed here, together with every item it holds.
        let _ = head;
    }

    /// Destroys every remaining item and block; used only when the whole
    /// queue is being torn down and no producer remains.  Leaves the queue
    /// in its freshly created state.
    pub fn drop_all_blocks(&mut self)
        requires
            old(self).wf(),
        ensures
            final(self).wf(),
            final(self)@ == Seq::<T>::empty(),
            final(self).pushed() == 0,
            final(self).reclaimed() == 0,
    {
        while self.blocks.len() > 1
            invariant
                self.wf(),
            decreases self.blocks.len(),
        {
            proof {
                Queue::<T>::lemma_items_len(self.blocks@);
            }
            self.drop_bags_per_block();
        }
        // Destroy the partially filled tail block and reset the chain.
        let mut blocks: Vec<Block<T>> = Vec::new();
        blocks.push(Block::new(0));
        self.blocks = blocks;
        self.tail_index = 0;
        proof {
            assert(self.blocks@.skip(1).len() == 0);
            Queue::<T>::lemma_items_of_empty(self.blocks@.skip(1));
            assert(self@ =~= Seq::<T>::empty());
        }
    }
}

/// The view of a queue after pushing the items of `ts`, in order.
pub open spec fn push_all<T>(q: Seq<T>, ts: Seq<T>) -> Seq<T>
    decreases ts.len(),
{
    if ts.len() == 0 {
        q
    } else {
        push_all(q.push(ts[0]), ts.skip(1))
    }
}

/// Law: the queue is FIFO.  Pushing the items of `ts` one by one into a
/// queue holding `q` leaves the queue holding `q` followed by `ts`; once the
/// `q.len()` older items have been consumed from the head, what is consumed
/// next is exactly `ts`, in push order.
pub proof fn lemma_fifo_order<T>(q: Seq<T>, ts: Seq<T>)
    ensures
        push_all(q, ts) == q + ts,
        push_all(q, ts).skip(q.len() as int) == ts,
    decreases ts.len(),
{
    if ts.len() == 0 {
        assert(push_all(q, ts) =~= q + ts);
        assert((q + ts).skip(q.len() as int) =~= ts);
    } else {
        lemma_fifo_order(q.push(ts[0]), ts.skip(1));
        assert(q.push(ts[0]) + ts.skip(1) =~= q + ts);
        assert((q + ts).skip(q.len() as int) =~= ts);
    }
}

/// Law: exactly one notification per filled block.  Among the pushes that
/// bring the total count up to `k * BLOCK_CAP`, only those whose new count is
/// a multiple of the block capacity carry a notification, so pushing exactly
/// `BLOCK_CAP * k` items emits exactly `k` notifications; the `j`-th of them
/// carries the id `j`, so ids are strictly increasing.
pub proof fn lemma_one_notification_per_block(k: nat)
    requires
        k >= 1,
    ensures
        forall|j: nat| 1 <= j <= k ==> #[trigger] block_note(j * (BLOCK_CAP as nat)) == Some(j),
        forall|c: nat|
            c <= k * (BLOCK_CAP as nat) && c % (BLOCK_CAP as nat) != 0 ==> #[trigger] block_note(c)
                is None,
{
    assert forall|j: nat| 1 <= j <= k implies #[trigger] block_note(j * (BLOCK_CAP as nat))
        == Some(j) by {
        let cap = BLOCK_CAP as int;
        vstd::arithmetic::div_mod::lemma_mod_multiples_basic(j as int, cap);
        vstd::arithmetic::div_mod::lemma_div_multiples_vanish(j as int, cap);
    }
}

} // verus!

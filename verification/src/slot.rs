//! The outgoing command slot: a single-slot, latest-value primitive.
//!
//! UI writers overwrite the slot with the most recently requested command
//! line; the session reader observes each new value at most once, in write
//! order, and rapid overwrites coalesce so that only the latest value at the
//! time of observation is seen. The initial value is the empty-string
//! sentinel, which the reader must ignore.

use vstd::prelude::*;

verus! {

/// Ghost description of a slot: the full write history, and what the reader
/// has been handed so far.
pub struct SlotModel {
    /// Every value ever put in the slot, the initial sentinel first.
    pub history: Seq<Seq<char>>,
    /// The values handed to the reader, in the order they were handed out.
    pub taken: Seq<Seq<char>>,
    /// For each taken value, the index of the write it came from.
    pub taken_at: Seq<int>,
    /// How many history entries the reader has moved past (coalesced or taken).
    pub seen: int,
    /// Whether the writer side has been dropped.
    pub closed: bool,
}

/// `at` maps each position of `a` to the position in `b` it was drawn from,
/// in strictly increasing order.
pub open spec fn subsequence_map<T>(at: Seq<int>, a: Seq<T>, b: Seq<T>) -> bool {
    &&& at.len() == a.len()
    &&& forall|i: int| 0 <= i < at.len() ==> 0 <= #[trigger] at[i] < b.len() && a[i] == b[at[i]]
    &&& forall|i: int| 0 <= i < at.len() - 1 ==> #[trigger] at[i] < at[i + 1]
}

/// `a` appears inside `b` in order (not necessarily contiguously).
pub open spec fn is_subsequence_of<T>(a: Seq<T>, b: Seq<T>) -> bool {
    exists|at: Seq<int>| subsequence_map(at, a, b)
}

/// Well-formedness of a slot model: the reader's bookkeeping is consistent
/// with the write history.
pub open spec fn slot_wf(m: SlotModel) -> bool {
    &&& m.history.len() >= 1
    &&& m.history[0].len() == 0
    &&& 1 <= m.seen <= m.history.len()
    &&& m.taken_at.len() == m.taken.len()
    &&& forall|i: int|
        0 <= i < m.taken.len() ==> 1 <= #[trigger] m.taken_at[i] < m.history.len()
            && m.taken[i] == m.history[m.taken_at[i]]
    &&& forall|i: int| 0 <= i < m.taken.len() - 1 ==> #[trigger] m.taken_at[i] < m.taken_at[i + 1]
    &&& m.taken.len() > 0 ==> m.taken_at[m.taken_at.len() - 1] < m.seen
}

/// A latest-value slot holding the most recently requested command line.
///
/// This is the executable model of the watch-style channel between the UI and
/// the session: one logical writer, one reader, no queueing.
pub struct CommandSlot {
    value: String,
    dirty: bool,
    closed: bool,
    model: Ghost<SlotModel>,
}

impl View for CommandSlot {
    type V = SlotModel;

    closed spec fn view(&self) -> SlotModel {
        self.model@
    }
}

impl CommandSlot {
    /// The slot's bookkeeping is consistent; established by `new` and kept by
    /// every operation.
    pub closed spec fn inv(&self) -> bool {
        &&& slot_wf(self.model@)
        &&& self.closed == self.model@.closed
        &&& self.dirty == (self.model@.seen < self.model@.history.len())
        &&& self.value@ == self.model@.history[self.model@.history.len() - 1]
    }

    /// A fresh slot holds only the empty-string sentinel and is open.
    pub fn new() -> (r: CommandSlot)
        ensures
            r.inv(),
            slot_wf(r@),
            r@.history.len() == 1,
            r@.history[0].len() == 0,
            r@.taken.len() == 0,
            !r@.closed,
    {
        let value = String::new();
        let ghost m = SlotModel {
            history: seq![value@],
            taken: Seq::empty(),
            taken_at: Seq::empty(),
            seen: 1,
            closed: false,
        };
        CommandSlot { value, dirty: false, closed: false, model: Ghost(m) }
    }

    /// Overwrite the slot with a new value. Older unobserved values are
    /// coalesced away: only the latest value will ever be handed out.
    pub fn send(&mut self, v: String)
        requires
            old(self).inv(),
            !old(self)@.closed,
        ensures
            final(self).inv(),
            final(self)@.history == old(self)@.history.push(v@),
            final(self)@.taken == old(self)@.taken,
            final(self)@.seen == old(self)@.seen,
            !final(self)@.closed,
    {
        self.value = v;
        self.dirty = true;
        proof {
            self.model@ = SlotModel { history: self.model@.history.push(self.value@), ..self.model@ };
        }
    }

    /// The writer hangs up: the UI tore the slot down to request a clean
    /// disconnect. Pending values, if any, can still be observed.
    pub fn close(&mut self)
        requires
            old(self).inv(),
        ensures
            final(self).inv(),
            final(self)@.history == old(self)@.history,
            final(self)@.taken == old(self)@.taken,
            final(self)@.seen == old(self)@.seen,
            final(self)@.closed,
    {
        self.closed = true;
        proof {
            self.model@ = SlotModel { closed: true, ..self.model@ };
        }
    }

    /// Whether an observation would return right away: a value is pending or
    /// the writer has hung up.
    pub fn ready(&self) -> (r: bool)
        requires
            self.inv(),
        ensures
            r == (self@.seen < self@.history.len() || self@.closed),
    {
        self.dirty || self.closed
    }

    /// Hand the reader the latest pending value, or report closure.
    ///
    /// Returns `Some` with the most recent write exactly when a write has not
    /// been observed yet; every write before it is coalesced away for good.
    /// Returns `None` exactly when nothing is pending and the writer is gone.
    pub fn observe(&mut self) -> (r: Option<String>)
        requires
            old(self).inv(),
            old(self)@.seen < old(self)@.history.len() || old(self)@.closed,
        ensures
            final(self).inv(),
            final(self)@.history == old(self)@.history,
            final(self)@.closed == old(self)@.closed,
            r is Some <==> old(self)@.seen < old(self)@.history.len(),
            old(self)@.seen < old(self)@.history.len() ==> {
                &&& r matches Some(s) && s@ == old(self)@.history[old(self)@.history.len() - 1]
                &&& final(self)@.taken == old(self)@.taken.push(
                    old(self)@.history[old(self)@.history.len() - 1],
                )
                &&& final(self)@.seen == final(self)@.history.len()
            },
            old(self)@.seen >= old(self)@.history.len() ==> r is None && final(self)@ == old(
                self,
            )@,
    {
        if self.dirty {
            self.dirty = false;
            let r = self.value.clone();
            proof {
                self.model@ = SlotModel {
                    taken: self.model@.taken.push(self.value@),
                    taken_at: self.model@.taken_at.push(self.model@.history.len() - 1),
                    seen: self.model@.history.len() as int,
                    ..self.model@
                };
            }
            Some(r)
        } else {
            None
        }
    }
}

/// What the reader was handed is a subsequence, in order, of what was
/// written.
pub proof fn lemma_taken_is_subsequence_of_history(m: SlotModel)
    requires
        slot_wf(m),
    ensures
        is_subsequence_of(m.taken, m.history),
{
    assert(subsequence_map(m.taken_at, m.taken, m.history));
}

/// In a strictly adjacent-increasing index sequence, any earlier entry is
/// below any later one.
proof fn lemma_adjacent_increasing(at: Seq<int>, i: int, j: int)
    requires
        forall|k: int| 0 <= k < at.len() - 1 ==> #[trigger] at[k] < at[k + 1],
        0 <= i < j < at.len(),
    ensures
        at[i] < at[j],
    decreases j - i,
{
    if j > i + 1 {
        lemma_adjacent_increasing(at, i, j - 1);
    }
}

/// Filtering keeps a subsequence: what passes the predicate appears in the
/// original, in order.
pub proof fn lemma_filter_is_subsequence<T>(s: Seq<T>, p: spec_fn(T) -> bool)
    ensures
        is_subsequence_of(s.filter(p), s),
    decreases s.len(),
{
    reveal(Seq::filter);
    if s.len() == 0 {
        assert(subsequence_map(Seq::<int>::empty(), s.filter(p), s));
    } else {
        let head = s.drop_last();
        lemma_filter_is_subsequence(head, p);
        let at0 = choose|at: Seq<int>| subsequence_map(at, head.filter(p), head);
        if p(s.last()) {
            let at1 = at0.push(s.len() - 1);
            assert forall|i: int| 0 <= i < at1.len() - 1 implies #[trigger] at1[i] < at1[i + 1] by {
                if i < at1.len() - 2 {
                    assert(at0[i] < at0[i + 1]);
                }
            }
            assert(subsequence_map(at1, s.filter(p), s));
        } else {
            assert(subsequence_map(at0, s.filter(p), s));
        }
    }
}

/// A subsequence of a subsequence is a subsequence.
pub proof fn lemma_subsequence_transitive<T>(a: Seq<T>, b: Seq<T>, c: Seq<T>)
    requires
        is_subsequence_of(a, b),
        is_subsequence_of(b, c),
    ensures
        is_subsequence_of(a, c),
{
    let ab = choose|at: Seq<int>| subsequence_map(at, a, b);
    let bc = choose|at: Seq<int>| subsequence_map(at, b, c);
    let ac = Seq::new(a.len(), |i: int| bc[ab[i]]);
    assert forall|i: int| 0 <= i < ac.len() - 1 implies #[trigger] ac[i] < ac[i + 1] by {
        assert(ab[i] < ab[i + 1]);
        lemma_adjacent_increasing(bc, ab[i], ab[i + 1]);
    }
    assert(subsequence_map(ac, a, c));
}

} // verus!

//! The registry of winners: what each winner may still claim. It outlives
//! the rounds, and a winner who is drawn again before claiming accumulates.

use vstd::prelude::*;

use crate::address::Address;
use crate::error::ErrorCode;

verus! {

/// The unclaimed prize of one winner.
#[derive(Clone, Copy, Debug, PartialEq, Eq)]
pub struct WinnerRecord {
    pub winner: Address,
    /// Never zero in a valid registry: a paid-out record is removed.
    pub amount: u64,
}

/// The winners who have not claimed yet.
#[derive(Clone, Debug, PartialEq, Eq)]
pub struct Winners {
    pub records: Vec<WinnerRecord>,
}

/// The registry as a mathematical value.
#[verifier::ext_equal]
pub struct WinnersView {
    pub records: Seq<WinnerRecord>,
}

impl View for Winners {
    type V = WinnersView;

    open spec fn view(&self) -> WinnersView {
        WinnersView { records: self.records@ }
    }
}

impl WinnersView {
    /// The registry without any record.
    pub open spec fn empty() -> WinnersView {
        WinnersView { records: Seq::empty() }
    }

    /// What holds of the registry between any two operations: no winner has
    /// two records, and no record is empty.
    pub open spec fn wf(self) -> bool {
        &&& forall|i: int, j: int|
            0 <= i < j < self.records.len() ==> (#[trigger] self.records[i]).winner != (
            #[trigger] self.records[j]).winner
        &&& forall|i: int| 0 <= i < self.records.len() ==> (#[trigger] self.records[i]).amount > 0
    }

    /// Whether `who` has a record.
    pub open spec fn has_prize(self, who: Address) -> bool {
        exists|i: int| 0 <= i < self.records.len() && (#[trigger] self.records[i]).winner == who
    }

    /// The place of the record of `who`, for one who has a record.
    pub open spec fn slot_of(self, who: Address) -> int {
        choose|i: int| 0 <= i < self.records.len() && (#[trigger] self.records[i]).winner == who
    }

    /// What `who` may claim; nothing for one without a record.
    pub open spec fn prize_of(self, who: Address) -> nat {
        if self.has_prize(who) {
            self.records[self.slot_of(who)].amount as nat
        } else {
            0
        }
    }

    /// Whether a prize can be added to what `who` may claim: not where the
    /// sum would leave 64 bits.
    pub open spec fn credit_outcome(self, who: Address, prize: u64) -> Result<(), ErrorCode> {
        if self.prize_of(who) + prize > u64::MAX {
            Err(ErrorCode::Overflow)
        } else {
            Ok(())
        }
    }

    /// The registry after `prize` was added for `who`: the record of `who`
    /// grows where there is one, else a new record is appended.
    pub open spec fn credited(self, who: Address, prize: u64) -> WinnersView {
        if self.has_prize(who) {
            let slot = self.slot_of(who);
            WinnersView {
                records: self.records.update(
                    slot,
                    WinnerRecord {
                        winner: who,
                        amount: (self.records[slot].amount + prize) as u64,
                    },
                ),
            }
        } else {
            WinnersView { records: self.records.push(WinnerRecord { winner: who, amount: prize }) }
        }
    }

    /// The registry after the record of `who` was taken out; the same
    /// registry where `who` has none.
    pub open spec fn without(self, who: Address) -> WinnersView {
        if self.has_prize(who) {
            WinnersView { records: self.records.remove(self.slot_of(who)) }
        } else {
            self
        }
    }

    /// The place of a record is that of its winner.
    pub proof fn lemma_slot_of(self, i: int)
        requires
            self.wf(),
            0 <= i < self.records.len(),
        ensures
            self.has_prize(self.records[i].winner),
            self.slot_of(self.records[i].winner) == i,
    {
        let who = self.records[i].winner;
        let s = self.slot_of(who);
        if s < i {
            assert(self.records[s].winner != self.records[i].winner);
        }
        if i < s {
            assert(self.records[i].winner != self.records[s].winner);
        }
    }

    /// Adding a prize leaves the registry valid, adds exactly the prize to
    /// what the winner may claim, and creates no second record.
    pub proof fn lemma_credited(self, who: Address, prize: u64)
        requires
            self.wf(),
            prize > 0,
            self.credit_outcome(who, prize) is Ok,
        ensures
            self.credited(who, prize).wf(),
            self.credited(who, prize).has_prize(who),
            self.credited(who, prize).prize_of(who) == self.prize_of(who) + prize,
    {
        let after = self.credited(who, prize);
        if self.has_prize(who) {
            let slot = self.slot_of(who);
            assert(after.records[slot].winner == who);
            assert forall|i: int, j: int| 0 <= i < j < after.records.len() implies (
            #[trigger] after.records[i]).winner != (#[trigger] after.records[j]).winner by {
                assert(self.records[i].winner != self.records[j].winner);
            }
            after.lemma_slot_of(slot);
        } else {
            let n = self.records.len() as int;
            assert forall|i: int, j: int| 0 <= i < j < after.records.len() implies (
            #[trigger] after.records[i]).winner != (#[trigger] after.records[j]).winner by {
                if j < n {
                    assert(self.records[i].winner != self.records[j].winner);
                } else {
                    assert(self.records[i].winner != who);
                }
            }
            assert(after.records[n].winner == who);
            after.lemma_slot_of(n);
        }
    }

    /// Adding a prize for one winner changes the claim of no other.
    pub proof fn lemma_credited_keeps_others(self, who: Address, prize: u64, other: Address)
        requires
            self.wf(),
            prize > 0,
            self.credit_outcome(who, prize) is Ok,
            other != who,
        ensures
            self.credited(who, prize).has_prize(other) == self.has_prize(other),
            self.credited(who, prize).prize_of(other) == self.prize_of(other),
    {
        let after = self.credited(who, prize);
        self.lemma_credited(who, prize);
        if self.has_prize(other) {
            let s = self.slot_of(other);
            assert(after.records[s] == self.records[s]);
            after.lemma_slot_of(s);
        }
        if after.has_prize(other) {
            let s = after.slot_of(other);
            assert(s < self.records.len());
            assert(self.records[s] == after.records[s]);
            self.lemma_slot_of(s);
        }
    }

    /// Taking a record out leaves the registry valid and leaves no record of
    /// that winner behind.
    pub proof fn lemma_without(self, who: Address)
        requires
            self.wf(),
        ensures
            self.without(who).wf(),
            !self.without(who).has_prize(who),
            self.without(who).prize_of(who) == 0,
    {
        let after = self.without(who);
        if self.has_prize(who) {
            let slot = self.slot_of(who);
            assert forall|i: int| 0 <= i < after.records.len() implies (
            #[trigger] after.records[i]).winner != who && after.records[i].amount > 0 by {
                let src = if i < slot {
                    i
                } else {
                    i + 1
                };
                assert(after.records[i] == self.records[src]);
                if src < slot {
                    assert(self.records[src].winner != self.records[slot].winner);
                } else {
                    assert(self.records[slot].winner != self.records[src].winner);
                }
            }
            assert forall|i: int, j: int| 0 <= i < j < after.records.len() implies (
            #[trigger] after.records[i]).winner != (#[trigger] after.records[j]).winner by {
                let si = if i < slot {
                    i
                } else {
                    i + 1
                };
                let sj = if j < slot {
                    j
                } else {
                    j + 1
                };
                assert(after.records[i] == self.records[si]);
                assert(after.records[j] == self.records[sj]);
                assert(self.records[si].winner != self.records[sj].winner);
            }
        }
    }

    /// Taking the record of one winner out changes the claim of no other.
    pub proof fn lemma_without_keeps_others(self, who: Address, other: Address)
        requires
            self.wf(),
            other != who,
        ensures
            self.without(who).has_prize(other) == self.has_prize(other),
            self.without(who).prize_of(other) == self.prize_of(other),
    {
        let after = self.without(who);
        self.lemma_without(who);
        if self.has_prize(who) {
            let slot = self.slot_of(who);
            if self.has_prize(other) {
                let s = self.slot_of(other);
                let t = if s < slot {
                    s
                } else {
                    s - 1
                };
                assert(after.records[t] == self.records[s]);
                after.lemma_slot_of(t);
            }
            if after.has_prize(other) {
                let t = after.slot_of(other);
                let s = if t < slot {
                    t
                } else {
                    t + 1
                };
                assert(after.records[t] == self.records[s]);
                self.lemma_slot_of(s);
            }
        }
    }
}

impl Winners {
    /// A registry without records.
    pub fn new() -> (winners: Winners)
        ensures
            winners@ == WinnersView::empty(),
            winners@.wf(),
    {
        Winners { records: Vec::new() }
    }

    /// Tells whether the registry is valid: no winner has two records, and
    /// no record is empty. The operations on a registry ask for a valid one
    /// and leave a valid one.
    pub fn is_valid(&self) -> (r: bool)
        ensures
            r == self@.wf(),
    {
        let mut k: usize = 0;
        while k < self.records.len()
            invariant
                k <= self.records@.len(),
                forall|i: int, j: int|
                    0 <= i < j < k ==> (#[trigger] self.records@[i]).winner != (
                    #[trigger] self.records@[j]).winner,
                forall|i: int| 0 <= i < k ==> (#[trigger] self.records@[i]).amount > 0,
            decreases self.records@.len() - k,
        {
            if self.records[k].amount == 0 {
                assert(!(self@.records[k as int].amount > 0));
                return false;
            }
            let mut j: usize = 0;
            while j < k
                invariant
                    j <= k < self.records@.len(),
                    forall|i: int|
                        0 <= i < j ==> (#[trigger] self.records@[i]).winner
                            != self.records@[k as int].winner,
                decreases k - j,
            {
                if self.records[j].winner == self.records[k].winner {
                    assert(self@.records[j as int].winner == self@.records[k as int].winner);
                    return false;
                }
                j += 1;
            }
            k += 1;
        }
        true
    }

    /// Looks for the record of `who`: the place of the first one, if any.
    pub fn find(&self, who: &Address) -> (r: Option<usize>)
        ensures
            r is Some == self@.has_prize(*who),
            match r {
                Some(i) => {
                    &&& i < self.records@.len()
                    &&& self.records@[i as int].winner == *who
                    &&& forall|j: int| 0 <= j < i ==> self.records@[j].winner != *who
                },
                None => true,
            },
            self@.wf() && r is Some ==> r->0 == self@.slot_of(*who),
    {
        let mut i: usize = 0;
        while i < self.records.len()
            invariant
                i <= self.records@.len(),
                forall|j: int| 0 <= j < i ==> self.records@[j].winner != *who,
            decreases self.records@.len() - i,
        {
            if self.records[i].winner == *who {
                proof {
                    assert(self@.records[i as int].winner == *who);
                    if self@.wf() {
                        self@.lemma_slot_of(i as int);
                    }
                }
                return Some(i);
            }
            i += 1;
        }
        None
    }

    /// What `who` may claim; nothing for one without a record.
    pub fn prize_of(&self, who: &Address) -> (amount: u64)
        requires
            self@.wf(),
        ensures
            amount == self@.prize_of(*who),
    {
        match self.find(who) {
            Some(slot) => self.records[slot].amount,
            None => 0,
        }
    }

    /// Adds `prize` to what `winner` may claim.
    ///
    /// Refuses with `Overflow`, and changes nothing, where the winner's
    /// claim would leave 64 bits. Otherwise the winner's record grows by
    /// `prize`, or a record is opened for a winner who had none.
    pub fn credit(&mut self, winner: Address, prize: u64) -> (r: Result<(), ErrorCode>)
        requires
            old(self)@.wf(),
            prize > 0,
        ensures
            r == old(self)@.credit_outcome(winner, prize),
            r is Ok ==> final(self)@ == old(self)@.credited(winner, prize),
            r is Err ==> *final(self) == *old(self),
            final(self)@.wf(),
    {
        match self.find(&winner) {
            Some(slot) => {
                let grown = match self.records[slot].amount.checked_add(prize) {
                    Some(a) => a,
                    None => {
                        return Err(ErrorCode::Overflow);
                    },
                };
                self.records[slot] = WinnerRecord { winner, amount: grown };
            },
            None => {
                self.records.push(WinnerRecord { winner, amount: prize });
            },
        }
        proof {
            old(self)@.lemma_credited(winner, prize);
            assert(self@ =~= old(self)@.credited(winner, prize));
        }
        Ok(())
    }
}

} // verus!

//! The deposit ledger of the active round: one stake per depositor, an index
//! from depositor to the position of the stake, and the round's total.

use vstd::prelude::*;

use crate::address::Address;
use crate::error::ErrorCode;

verus! {

/// The stake of one depositor in the active round.
#[derive(Clone, Copy, Debug, PartialEq, Eq)]
pub struct Tokens {
    /// The mint of the first deposit that opened this stake.
    pub mint: Address,
    /// What the depositor has put in so far. Never zero in a valid round.
    pub token_amount: u64,
    pub depositor: Address,
}

/// One entry of the index: where in the list of stakes a depositor's stake
/// stands.
#[derive(Clone, Copy, Debug, PartialEq, Eq)]
pub struct DepositIndex {
    pub depositor: Address,
    pub index: u64,
}

/// The active round.
#[derive(Clone, Debug, PartialEq, Eq)]
pub struct RoundInfo {
    pub deposits: Vec<Tokens>,
    pub total_deposits: u64,
    pub is_round_open: bool,
    pub deposit_indices: Vec<DepositIndex>,
}

/// The sum of the amounts of a list of stakes.
pub open spec fn stake_sum(stakes: Seq<Tokens>) -> nat
    decreases stakes.len(),
{
    if stakes.len() == 0 {
        0
    } else {
        stake_sum(stakes.drop_last()) + stakes.last().token_amount as nat
    }
}

/// A round as a mathematical value.
#[verifier::ext_equal]
pub struct RoundView {
    pub deposits: Seq<Tokens>,
    pub total_deposits: u64,
    pub is_round_open: bool,
    pub deposit_indices: Seq<DepositIndex>,
}

impl View for RoundInfo {
    type V = RoundView;

    open spec fn view(&self) -> RoundView {
        RoundView {
            deposits: self.deposits@,
            total_deposits: self.total_deposits,
            is_round_open: self.is_round_open,
            deposit_indices: self.deposit_indices@,
        }
    }
}

impl RoundView {
    /// The round right after initialization or a draw: open and empty.
    pub open spec fn fresh() -> RoundView {
        RoundView {
            deposits: Seq::empty(),
            total_deposits: 0,
            is_round_open: true,
            deposit_indices: Seq::empty(),
        }
    }

    /// Every entry of the index points at a stake of its own depositor.
    pub open spec fn index_points_home(self) -> bool {
        forall|k: int|
            0 <= k < self.deposit_indices.len() ==> {
                &&& (#[trigger] self.deposit_indices[k]).index < self.deposits.len()
                &&& self.deposits[self.deposit_indices[k].index as int].depositor
                    == self.deposit_indices[k].depositor
            }
    }

    /// No depositor has two entries in the index.
    pub open spec fn index_keys_unique(self) -> bool {
        forall|j: int, k: int|
            0 <= j < k < self.deposit_indices.len() ==> (#[trigger] self.deposit_indices[j]).depositor
                != (#[trigger] self.deposit_indices[k]).depositor
    }

    /// Whether an entry of the index points at position `i`.
    pub open spec fn pointed_at(self, i: int) -> bool {
        exists|k: int|
            0 <= k < self.deposit_indices.len() && (#[trigger] self.deposit_indices[k]).index == i
    }

    /// Every position in the list of stakes is pointed at by an entry of the
    /// index.
    pub open spec fn index_covers(self) -> bool {
        forall|i: int| 0 <= i < self.deposits.len() ==> #[trigger] self.pointed_at(i)
    }

    /// The index is a one-to-one map from its depositors onto the positions
    /// of the stakes.
    pub open spec fn indexed(self) -> bool {
        &&& self.deposit_indices.len() == self.deposits.len()
        &&& self.index_points_home()
        &&& self.index_keys_unique()
        &&& self.index_covers()
    }

    /// No stake is empty.
    pub open spec fn stakes_positive(self) -> bool {
        forall|i: int| 0 <= i < self.deposits.len() ==> (#[trigger] self.deposits[i]).token_amount > 0
    }

    /// What holds of the round between any two operations: the total is the
    /// sum of the stakes, the index matches the stakes, no stake is empty.
    pub open spec fn wf(self) -> bool {
        &&& self.total_deposits == stake_sum(self.deposits)
        &&& self.indexed()
        &&& self.stakes_positive()
    }

    /// Whether `who` has a stake in the round.
    pub open spec fn holds(self, who: Address) -> bool {
        exists|i: int| 0 <= i < self.deposits.len() && (#[trigger] self.deposits[i]).depositor == who
    }

    /// The position of the stake of `who`, for one who holds a stake.
    pub open spec fn position_of(self, who: Address) -> int {
        choose|i: int| 0 <= i < self.deposits.len() && (#[trigger] self.deposits[i]).depositor == who
    }

    /// What `who` has at stake in the round; nothing for one who made no
    /// deposit.
    pub open spec fn stake_of(self, who: Address) -> nat {
        if self.holds(who) {
            self.deposits[self.position_of(who)].token_amount as nat
        } else {
            0
        }
    }

    /// Whether a deposit of `amount` is accepted, and the refusal otherwise:
    /// a closed round comes first, then an empty deposit, then a total that
    /// would leave 64 bits.
    pub open spec fn record_outcome(self, amount: u64) -> Result<(), ErrorCode> {
        if !self.is_round_open {
            Err(ErrorCode::RoundClosed)
        } else if amount == 0 {
            Err(ErrorCode::InvalidDeposit)
        } else if self.total_deposits + amount > u64::MAX {
            Err(ErrorCode::Overflow)
        } else {
            Ok(())
        }
    }

    /// The round after an accepted deposit of `amount` by `who`: the stake of
    /// `who` grows where there is one, else a new stake and its index entry
    /// are appended; the total grows by `amount`.
    pub open spec fn recorded(self, who: Address, mint: Address, amount: u64) -> RoundView {
        if self.holds(who) {
            let p = self.position_of(who);
            let stake = self.deposits[p];
            RoundView {
                deposits: self.deposits.update(
                    p,
                    Tokens {
                        mint: stake.mint,
                        token_amount: (stake.token_amount + amount) as u64,
                        depositor: stake.depositor,
                    },
                ),
                total_deposits: (self.total_deposits + amount) as u64,
                is_round_open: self.is_round_open,
                deposit_indices: self.deposit_indices,
            }
        } else {
            RoundView {
                deposits: self.deposits.push(
                    Tokens { mint: mint, token_amount: amount, depositor: who },
                ),
                total_deposits: (self.total_deposits + amount) as u64,
                is_round_open: self.is_round_open,
                deposit_indices: self.deposit_indices.push(
                    DepositIndex { depositor: who, index: self.deposits.len() as u64 },
                ),
            }
        }
    }

    /// In a round whose index matches, no two stakes belong to one depositor.
    pub proof fn lemma_depositors_unique(self, i: int, j: int)
        requires
            self.indexed(),
            0 <= i < self.deposits.len(),
            0 <= j < self.deposits.len(),
            self.deposits[i].depositor == self.deposits[j].depositor,
        ensures
            i == j,
    {
        assert(self.pointed_at(i) && self.pointed_at(j));
        let ki = choose|k: int|
            0 <= k < self.deposit_indices.len() && (#[trigger] self.deposit_indices[k]).index == i;
        let kj = choose|k: int|
            0 <= k < self.deposit_indices.len() && (#[trigger] self.deposit_indices[k]).index == j;
        assert(self.deposit_indices[ki].depositor == self.deposit_indices[kj].depositor);
        if ki < kj {
            assert(false);
        }
        if kj < ki {
            assert(false);
        }
    }

    /// The position of a stake is that of its depositor.
    pub proof fn lemma_position_of(self, i: int)
        requires
            self.indexed(),
            0 <= i < self.deposits.len(),
        ensures
            self.holds(self.deposits[i].depositor),
            self.position_of(self.deposits[i].depositor) == i,
    {
        let who = self.deposits[i].depositor;
        let p = self.position_of(who);
        self.lemma_depositors_unique(i, p);
    }

    /// A depositor holds a stake exactly when the index has an entry for
    /// that depositor, and the entry gives the position of the stake.
    pub proof fn lemma_index_finds(self, who: Address)
        requires
            self.indexed(),
        ensures
            self.holds(who) <==> exists|k: int|
                0 <= k < self.deposit_indices.len() && (#[trigger] self.deposit_indices[k]).depositor
                    == who,
            forall|k: int|
                0 <= k < self.deposit_indices.len() && (#[trigger] self.deposit_indices[k]).depositor
                    == who ==> self.position_of(who) == self.deposit_indices[k].index,
    {
        if self.holds(who) {
            let p = self.position_of(who);
            assert(self.pointed_at(p));
            let k = choose|k: int|
                0 <= k < self.deposit_indices.len() && (#[trigger] self.deposit_indices[k]).index
                    == p;
            assert(self.deposit_indices[k].depositor == who);
        }
        assert forall|k: int|
            0 <= k < self.deposit_indices.len() && (#[trigger] self.deposit_indices[k]).depositor
                == who implies self.holds(who) && self.position_of(who)
            == self.deposit_indices[k].index by {
            let p = self.deposit_indices[k].index as int;
            assert(self.deposits[p].depositor == who);
            self.lemma_position_of(p);
        }
    }
}

impl RoundView {
    /// An accepted deposit leaves the round valid: the total is still the sum
    /// of the stakes, the index still matches them, and no depositor has two
    /// stakes.
    pub proof fn lemma_recorded_keeps_wf(self, who: Address, mint: Address, amount: u64)
        requires
            self.wf(),
            self.record_outcome(amount) is Ok,
        ensures
            self.recorded(who, mint, amount).wf(),
            self.recorded(who, mint, amount).holds(who),
            self.recorded(who, mint, amount).stake_of(who) == self.stake_of(who) + amount,
            self.recorded(who, mint, amount).is_round_open,
    {
        let after = self.recorded(who, mint, amount);
        lemma_len_within_sum(self.deposits);
        if self.holds(who) {
            let p = self.position_of(who);
            let stake = self.deposits[p];
            lemma_stake_within_sum(self.deposits, p);
            let grown = Tokens {
                mint: stake.mint,
                token_amount: (stake.token_amount + amount) as u64,
                depositor: stake.depositor,
            };
            lemma_sum_update(self.deposits, p, grown);
            assert forall|i: int| 0 <= i < after.deposits.len() implies #[trigger] after.pointed_at(
                i,
            ) by {
                assert(self.pointed_at(i));
                let k = choose|k: int|
                    0 <= k < self.deposit_indices.len() && (
                    #[trigger] self.deposit_indices[k]).index == i;
                assert(after.deposit_indices[k].index == i);
            }
            assert(after.deposits[p].depositor == who);
            after.lemma_position_of(p);
        } else {
            let n = self.deposits.len() as int;
            let stake = Tokens { mint: mint, token_amount: amount, depositor: who };
            lemma_sum_push(self.deposits, stake);
            self.lemma_index_finds(who);
            assert forall|i: int| 0 <= i < after.deposits.len() implies #[trigger] after.pointed_at(
                i,
            ) by {
                if i < n {
                    assert(self.pointed_at(i));
                    let k = choose|k: int|
                        0 <= k < self.deposit_indices.len() && (
                        #[trigger] self.deposit_indices[k]).index == i;
                    assert(after.deposit_indices[k].index == i);
                } else {
                    assert(after.deposit_indices[n].index == i);
                }
            }
            assert(after.deposits[n].depositor == who);
            after.lemma_position_of(n);
        }
    }

    /// A round that has just been opened is valid.
    pub proof fn lemma_fresh_is_wf()
        ensures
            RoundView::fresh().wf(),
            RoundView::fresh().is_round_open,
            RoundView::fresh().total_deposits == 0,
    {
    }

    /// No two entries of the index point at the same stake.
    pub proof fn lemma_index_one_to_one(self, j: int, k: int)
        requires
            self.indexed(),
            0 <= j < self.deposit_indices.len(),
            0 <= k < self.deposit_indices.len(),
            self.deposit_indices[j].index == self.deposit_indices[k].index,
        ensures
            j == k,
    {
        assert(self.deposit_indices[j].depositor == self.deposit_indices[k].depositor);
        if j < k {
            assert(false);
        }
        if k < j {
            assert(false);
        }
    }

    /// What a depositor has at stake is part of the total.
    pub proof fn lemma_stake_within_total(self, who: Address)
        requires
            self.wf(),
        ensures
            self.stake_of(who) <= self.total_deposits,
    {
        if self.holds(who) {
            lemma_stake_within_sum(self.deposits, self.position_of(who));
        }
    }

    /// In an open round, a deposit that would take the total or the
    /// depositor's own stake out of 64 bits is refused as `Overflow`.
    pub proof fn lemma_overflow_is_refused(self, who: Address, amount: u64)
        requires
            self.wf(),
            self.is_round_open,
            self.total_deposits + amount > u64::MAX || self.stake_of(who) + amount > u64::MAX,
        ensures
            self.record_outcome(amount) == Err::<(), ErrorCode>(ErrorCode::Overflow),
    {
        self.lemma_stake_within_total(who);
    }

    /// Two deposits of one depositor, of `a` and then of `b`, leave the round
    /// as one deposit of `a + b` does: the same stakes in the same places,
    /// the same index, the same total.
    pub proof fn lemma_deposits_add_up(
        self,
        who: Address,
        mint: Address,
        second_mint: Address,
        a: u64,
        b: u64,
    )
        requires
            self.wf(),
            self.record_outcome(a) is Ok,
            self.recorded(who, mint, a).record_outcome(b) is Ok,
        ensures
            a + b <= u64::MAX,
            self.record_outcome((a + b) as u64) is Ok,
            self.recorded(who, mint, a).recorded(who, second_mint, b) == self.recorded(
                who,
                mint,
                (a + b) as u64,
            ),
            self.recorded(who, mint, a).recorded(who, second_mint, b).stake_of(who)
                == self.stake_of(who) + a + b,
            self.recorded(who, mint, a).recorded(who, second_mint, b).wf(),
    {
        let first = self.recorded(who, mint, a);
        let both = first.recorded(who, second_mint, b);
        let once = self.recorded(who, mint, (a + b) as u64);
        self.lemma_recorded_keeps_wf(who, mint, a);
        first.lemma_recorded_keeps_wf(who, second_mint, b);
        self.lemma_recorded_keeps_wf(who, mint, (a + b) as u64);
        self.lemma_stake_within_total(who);
        if self.holds(who) {
            let p = self.position_of(who);
            assert(first.deposits[p].depositor == who);
            first.lemma_position_of(p);
            assert(both.deposits =~= once.deposits);
        } else {
            let n = self.deposits.len() as int;
            assert(first.deposits[n].depositor == who);
            first.lemma_position_of(n);
            assert(both.deposits =~= once.deposits);
        }
        assert(both =~= once);
    }

    /// A deposit changes the stake of nobody but its depositor.
    pub proof fn lemma_recorded_keeps_others(
        self,
        who: Address,
        mint: Address,
        amount: u64,
        other: Address,
    )
        requires
            self.wf(),
            self.record_outcome(amount) is Ok,
            other != who,
        ensures
            self.recorded(who, mint, amount).holds(other) == self.holds(other),
            self.recorded(who, mint, amount).stake_of(other) == self.stake_of(other),
    {
        let after = self.recorded(who, mint, amount);
        self.lemma_recorded_keeps_wf(who, mint, amount);
        if self.holds(other) {
            let q = self.position_of(other);
            assert(after.deposits[q].depositor == other);
            after.lemma_position_of(q);
            assert(after.deposits[q].token_amount == self.deposits[q].token_amount);
        }
        if after.holds(other) {
            let q = after.position_of(other);
            assert(q < self.deposits.len());
            assert(self.deposits[q].depositor == other);
        }
    }
}

impl RoundInfo {
    /// An open round without stakes.
    pub fn new() -> (round: RoundInfo)
        ensures
            round@ == RoundView::fresh(),
            round@.wf(),
    {
        RoundInfo {
            deposits: Vec::new(),
            total_deposits: 0,
            is_round_open: true,
            deposit_indices: Vec::new(),
        }
    }

    /// Looks `who` up in the index: the first entry of that depositor, if
    /// there is one.
    pub fn find_entry(&self, who: &Address) -> (r: Option<usize>)
        ensures
            match r {
                Some(k) => {
                    &&& k < self.deposit_indices@.len()
                    &&& self.deposit_indices@[k as int].depositor == *who
                    &&& forall|j: int| 0 <= j < k ==> self.deposit_indices@[j].depositor != *who
                },
                None => forall|j: int|
                    0 <= j < self.deposit_indices@.len() ==> self.deposit_indices@[j].depositor
                        != *who,
            },
    {
        let mut k: usize = 0;
        while k < self.deposit_indices.len()
            invariant
                k <= self.deposit_indices@.len(),
                forall|j: int| 0 <= j < k ==> self.deposit_indices@[j].depositor != *who,
            decreases self.deposit_indices@.len() - k,
        {
            if self.deposit_indices[k].depositor == *who {
                return Some(k);
            }
            k += 1;
        }
        None
    }

    /// Tells whether `who` has a stake in the round.
    pub fn has_depositor(&self, who: &Address) -> (r: bool)
        ensures
            r == self@.holds(*who),
    {
        let mut i: usize = 0;
        while i < self.deposits.len()
            invariant
                i <= self.deposits@.len(),
                forall|j: int| 0 <= j < i ==> self.deposits@[j].depositor != *who,
            decreases self.deposits@.len() - i,
        {
            if self.deposits[i].depositor == *who {
                assert(self@.deposits[i as int].depositor == *who);
                return true;
            }
            i += 1;
        }
        false
    }

    /// What `who` has at stake in the round; nothing for one who made no
    /// deposit.
    pub fn stake_of(&self, who: &Address) -> (amount: u64)
        requires
            self@.wf(),
        ensures
            amount == self@.stake_of(*who),
    {
        proof {
            self@.lemma_index_finds(*who);
        }
        match self.find_entry(who) {
            Some(k) => {
                assert(self@.deposit_indices[k as int].index < self.deposits.len());
                self.deposits[self.deposit_indices[k].index as usize].token_amount
            },
            None => 0,
        }
    }

    /// Records a deposit of `amount` by `depositor`.
    ///
    /// A closed round refuses with `RoundClosed`, an empty deposit with
    /// `InvalidDeposit`, one that would take the total out of 64 bits with
    /// `Overflow`; a refused deposit changes nothing. Otherwise the stake of
    /// the depositor grows by `amount`, or a stake with the given mint is
    /// opened for a first deposit, and the total grows by `amount`.
    pub fn record(&mut self, depositor: Address, mint: Address, amount: u64) -> (r: Result<
        (),
        ErrorCode,
    >)
        requires
            old(self)@.wf(),
        ensures
            r == old(self)@.record_outcome(amount),
            r is Ok ==> final(self)@ == old(self)@.recorded(depositor, mint, amount),
            r is Err ==> *final(self) == *old(self),
            final(self)@.wf(),
    {
        if !self.is_round_open {
            return Err(ErrorCode::RoundClosed);
        }
        if amount == 0 {
            return Err(ErrorCode::InvalidDeposit);
        }
        let new_total = match self.total_deposits.checked_add(amount) {
            Some(t) => t,
            None => {
                return Err(ErrorCode::Overflow);
            },
        };
        proof {
            self@.lemma_index_finds(depositor);
            self@.lemma_recorded_keeps_wf(depositor, mint, amount);
        }
        match self.find_entry(&depositor) {
            Some(k) => {
                assert(self@.deposit_indices[k as int].index < self.deposits.len());
                let position = self.deposit_indices[k].index as usize;
                let stake = self.deposits[position];
                proof {
                    lemma_stake_within_sum(self.deposits@, position as int);
                }
                let grown = match stake.token_amount.checked_add(amount) {
                    Some(a) => a,
                    None => {
                        return Err(ErrorCode::Overflow);
                    },
                };
                self.deposits[position] = Tokens {
                    mint: stake.mint,
                    token_amount: grown,
                    depositor: stake.depositor,
                };
            },
            None => {
                let new_index = self.deposits.len();
                self.deposits.push(Tokens { mint, token_amount: amount, depositor });
                self.deposit_indices.push(DepositIndex { depositor, index: new_index as u64 });
            },
        }
        self.total_deposits = new_total;
        assert(self@ =~= old(self)@.recorded(depositor, mint, amount));
        Ok(())
    }

    /// Empties the round and opens it again.
    pub fn reset(&mut self)
        ensures
            final(self)@ == RoundView::fresh(),
            final(self)@.wf(),
    {
        self.total_deposits = 0;
        self.deposits.clear();
        self.deposit_indices.clear();
        self.is_round_open = true;
    }
}

impl RoundInfo {
    /// Tells whether no stake is empty and the total is the sum of the
    /// stakes.
    fn total_matches(&self) -> (r: bool)
        ensures
            r == (self@.stakes_positive() && self@.total_deposits == stake_sum(self@.deposits)),
    {
        let mut sum: u64 = 0;
        let mut i: usize = 0;
        while i < self.deposits.len()
            invariant
                i <= self.deposits@.len(),
                sum == stake_sum(self.deposits@.take(i as int)),
                forall|j: int| 0 <= j < i ==> (#[trigger] self.deposits@[j]).token_amount > 0,
            decreases self.deposits@.len() - i,
        {
            let amount = self.deposits[i].token_amount;
            if amount == 0 {
                return false;
            }
            proof {
                assert(self.deposits@.take(i + 1) =~= self.deposits@.take(i as int).push(
                    self.deposits@[i as int],
                ));
                lemma_sum_push(self.deposits@.take(i as int), self.deposits@[i as int]);
                lemma_sum_prefix(self.deposits@, i + 1);
            }
            sum = match sum.checked_add(amount) {
                Some(s) => s,
                None => {
                    return false;
                },
            };
            i += 1;
        }
        assert(self.deposits@.take(i as int) =~= self.deposits@);
        sum == self.total_deposits
    }

    /// Tells whether every entry of the index points at a stake of its own
    /// depositor.
    fn index_points_home(&self) -> (r: bool)
        ensures
            r == self@.index_points_home(),
    {
        let n = self.deposits.len();
        let mut k: usize = 0;
        while k < self.deposit_indices.len()
            invariant
                n == self.deposits@.len(),
                k <= self.deposit_indices@.len(),
                forall|j: int|
                    0 <= j < k ==> {
                        &&& (#[trigger] self.deposit_indices@[j]).index < n
                        &&& self.deposits@[self.deposit_indices@[j].index as int].depositor
                            == self.deposit_indices@[j].depositor
                    },
            decreases self.deposit_indices@.len() - k,
        {
            let entry = self.deposit_indices[k];
            if entry.index >= n as u64 {
                assert(!(self@.deposit_indices[k as int].index < self@.deposits.len()));
                return false;
            }
            if self.deposits[entry.index as usize].depositor != entry.depositor {
                assert(self@.deposits[self@.deposit_indices[k as int].index as int].depositor
                    != self@.deposit_indices[k as int].depositor);
                return false;
            }
            k += 1;
        }
        true
    }

    /// Tells whether no depositor has two entries in the index.
    fn index_keys_unique(&self) -> (r: bool)
        ensures
            r == self@.index_keys_unique(),
    {
        let mut k: usize = 0;
        while k < self.deposit_indices.len()
            invariant
                k <= self.deposit_indices@.len(),
                forall|i: int, j: int|
                    0 <= i < j < k ==> (#[trigger] self.deposit_indices@[i]).depositor != (
                    #[trigger] self.deposit_indices@[j]).depositor,
            decreases self.deposit_indices@.len() - k,
        {
            let mut j: usize = 0;
            while j < k
                invariant
                    j <= k < self.deposit_indices@.len(),
                    forall|i: int|
                        0 <= i < j ==> (#[trigger] self.deposit_indices@[i]).depositor
                            != self.deposit_indices@[k as int].depositor,
                decreases k - j,
            {
                if self.deposit_indices[j].depositor == self.deposit_indices[k].depositor {
                    assert(self@.deposit_indices[j as int].depositor
                        == self@.deposit_indices[k as int].depositor);
                    return false;
                }
                j += 1;
            }
            k += 1;
        }
        true
    }

    /// Tells whether every position in the list of stakes is pointed at by
    /// an entry of the index.
    fn index_covers(&self) -> (r: bool)
        ensures
            r == self@.index_covers(),
    {
        let mut i: usize = 0;
        while i < self.deposits.len()
            invariant
                i <= self.deposits@.len(),
                forall|p: int| 0 <= p < i ==> #[trigger] self@.pointed_at(p),
            decreases self.deposits@.len() - i,
        {
            let mut found = false;
            let mut k: usize = 0;
            while k < self.deposit_indices.len() && !found
                invariant
                    k <= self.deposit_indices@.len(),
                    found ==> self@.pointed_at(i as int),
                    !found ==> forall|j: int|
                        0 <= j < k ==> (#[trigger] self.deposit_indices@[j]).index != i,
                decreases self.deposit_indices@.len() - k,
            {
                if self.deposit_indices[k].index == i as u64 {
                    assert(self@.deposit_indices[k as int].index == i);
                    found = true;
                }
                k += 1;
            }
            if !found {
                assert(!self@.pointed_at(i as int));
                return false;
            }
            i += 1;
        }
        true
    }

    /// Tells whether the round is valid: the total is the sum of the stakes,
    /// the index matches the stakes, no stake is empty. The operations on a
    /// round ask for a valid one and leave a valid one.
    pub fn is_valid(&self) -> (r: bool)
        ensures
            r == self@.wf(),
    {
        self.deposit_indices.len() == self.deposits.len() && self.total_matches()
            && self.index_points_home() && self.index_keys_unique() && self.index_covers()
    }
}

/// Where no stake is empty, there are no more stakes than their sum.
pub proof fn lemma_len_within_sum(stakes: Seq<Tokens>)
    requires
        forall|i: int| 0 <= i < stakes.len() ==> (#[trigger] stakes[i]).token_amount > 0,
    ensures
        stakes.len() <= stake_sum(stakes),
    decreases stakes.len(),
{
    if stakes.len() > 0 {
        assert forall|i: int| 0 <= i < stakes.drop_last().len() implies (
        #[trigger] stakes.drop_last()[i]).token_amount > 0 by {
            assert(stakes.drop_last()[i] == stakes[i]);
        }
        lemma_len_within_sum(stakes.drop_last());
        assert(stakes.last() == stakes[stakes.len() - 1]);
    }
}

/// Appending a stake adds its amount to the sum.
pub proof fn lemma_sum_push(stakes: Seq<Tokens>, stake: Tokens)
    ensures
        stake_sum(stakes.push(stake)) == stake_sum(stakes) + stake.token_amount,
{
    assert(stakes.push(stake).drop_last() =~= stakes);
}

/// Changing the amount of one stake changes the sum by the difference.
pub proof fn lemma_sum_update(stakes: Seq<Tokens>, i: int, stake: Tokens)
    requires
        0 <= i < stakes.len(),
    ensures
        stake_sum(stakes.update(i, stake)) == stake_sum(stakes) - stakes[i].token_amount
            + stake.token_amount,
    decreases stakes.len(),
{
    let updated = stakes.update(i, stake);
    if i == stakes.len() - 1 {
        assert(updated.drop_last() =~= stakes.drop_last());
    } else {
        assert(updated.drop_last() =~= stakes.drop_last().update(i, stake));
        lemma_sum_update(stakes.drop_last(), i, stake);
    }
}

/// No stake is larger than the sum of all.
pub proof fn lemma_stake_within_sum(stakes: Seq<Tokens>, i: int)
    requires
        0 <= i < stakes.len(),
    ensures
        stakes[i].token_amount <= stake_sum(stakes),
    decreases stakes.len(),
{
    if i < stakes.len() - 1 {
        lemma_stake_within_sum(stakes.drop_last(), i);
    }
}

/// The sum of the first stakes of a list is no larger than the sum of all.
pub proof fn lemma_sum_prefix(stakes: Seq<Tokens>, n: int)
    requires
        0 <= n <= stakes.len(),
    ensures
        stake_sum(stakes.take(n)) <= stake_sum(stakes),
    decreases stakes.len(),
{
    if n == stakes.len() {
        assert(stakes.take(n) =~= stakes);
    } else {
        assert(stakes.drop_last().take(n) =~= stakes.take(n));
        lemma_sum_prefix(stakes.drop_last(), n);
    }
}

} // verus!

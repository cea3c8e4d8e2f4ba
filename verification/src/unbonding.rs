//! The unbonding ledger: removed stake waits here until its claim block, then
//! becomes free balance again.

use vstd::prelude::*;
use std::collections::BTreeMap;
use crate::types::NetworkError;
use crate::network::{Network, PendingDeposit, get_or, sat_add, sat_sub};

use crate::laws::lemma_unbonding_ledger_bounded;

verus! {

/// The entries of a ledger whose claim block is after `block`.
pub open spec fn future_part(m: Map<u32, u128>, block: u32) -> Map<u32, u128> {
    Map::new(|k: u32| m.contains_key(k) && block < k, |k: u32| m[k])
}

/// `claimed` lists, once each, exactly the entries of `m` whose claim block is at
/// most `block`, as deposits to `account`.
pub open spec fn claims_of(claimed: Seq<PendingDeposit>, account: u64, m: Map<u32, u128>, block: u32) -> bool {
    &&& forall|i: int|
        0 <= i < claimed.len() ==> {
            &&& (#[trigger] claimed[i]).account == account
            &&& m.contains_key(claimed[i].unbonding_block)
            &&& m[claimed[i].unbonding_block] == claimed[i].amount
            &&& claimed[i].unbonding_block <= block
        }
    &&& forall|i: int, j: int|
        0 <= i < j < claimed.len() ==> (#[trigger] claimed[i]).unbonding_block != (#[trigger] claimed[j]).unbonding_block
    &&& forall|k: u32|
        m.contains_key(k) && k <= block ==> exists|i: int|
            0 <= i < claimed.len() && (#[trigger] claimed[i]).unbonding_block == k
}

/// `total` after subtracting every claimed amount in order, each floored at zero.
pub open spec fn sub_claims(total: u128, claimed: Seq<PendingDeposit>) -> u128
    decreases claimed.len(),
{
    if claimed.len() == 0 {
        total
    } else {
        sat_sub(sub_claims(total, claimed.drop_last()), claimed.last().amount)
    }
}

impl Network {
    /// The unbonding ledger of an account (empty when it has none).
    pub open spec fn ledger_of(&self, account: u64) -> Map<u32, u128> {
        if self.stake_unbonding_ledger@.contains_key(account) {
            self.stake_unbonding_ledger@[account]@
        } else {
            Map::empty()
        }
    }

    /// Every group of state but the unbonding ledger equals that of `o`.
    pub open spec fn only_unbonding_changed(&self, o: Network) -> bool {
        &&& self.same_settings(o)
        &&& self.same_subnet_pool(o)
        &&& self.same_validator_pool(o)
        &&& self.same_node_pool(o)
        &&& self.same_node_stake(o)
        &&& self.same_overwatch_stake(o)
        &&& self.same_delegate_account(o)
        &&& self.same_swap_queue(o)
        &&& self.same_rate_limit(o)
    }

    /// A copy of an account's ledger.
    fn get_ledger(&self, account: u64) -> (r: BTreeMap<u32, u128>)
        ensures
            r@ == self.ledger_of(account),
    {
        match self.stake_unbonding_ledger.get(&account) {
            Some(l) => l.clone(),
            None => BTreeMap::new(),
        }
    }

    /// Pay out every unbonding of `coldkey` whose claim block is at most `block`:
    /// each becomes a pending deposit, leaves the ledger and the total. Returns
    /// how many were paid out.
    pub fn do_claim_unbondings(&mut self, coldkey: u64, block: u32) -> (count: u32)
        requires
            old(self).ledger_of(coldkey).len() < u32::MAX,
            old(self).pending_deposits@.len() + old(self).ledger_of(coldkey).len() <= usize::MAX,
        ensures
            ({
                let claimed = final(self).pending_deposits@.skip(old(self).pending_deposits@.len() as int);
                &&& final(self).pending_deposits@.len() >= old(self).pending_deposits@.len()
                &&& final(self).pending_deposits@.take(old(self).pending_deposits@.len() as int)
                    == old(self).pending_deposits@
                &&& claims_of(claimed, coldkey, old(self).ledger_of(coldkey), block)
                &&& count == claimed.len()
                &&& final(self).total_unbonding_balance == sub_claims(old(self).total_unbonding_balance, claimed)
                &&& count == 0 ==> final(self).stake_unbonding_ledger@ == old(self).stake_unbonding_ledger@
                &&& count > 0 ==> final(self).stake_unbonding_ledger@.contains_key(coldkey)
                    && final(self).ledger_of(coldkey) == future_part(old(self).ledger_of(coldkey), block)
                &&& forall|a: u64| a != coldkey ==> #[trigger] final(self).ledger_of(a) == old(self).ledger_of(a)
                &&& forall|a: u64| a != coldkey ==> (#[trigger] final(self).stake_unbonding_ledger@.contains_key(a)
                    == old(self).stake_unbonding_ledger@.contains_key(a))
            }),
            final(self).only_unbonding_changed(*old(self)),
    {
        let unbondings = self.get_ledger(coldkey);
        let mut copy = unbondings.clone();
        let ghost m = unbondings@;
        let ghost start = self.pending_deposits@.len() as int;
        let ghost total0 = self.total_unbonding_balance;
        let mut count: u32 = 0;
        let ghost mut pos: Map<u32, int> = Map::empty();
        let ghost mut ipos: Map<u32, int> = Map::empty();
        for (k, v) in it: unbondings.iter()
            invariant
                m == unbondings@,
                it.seq().no_duplicates(),
                m == old(self).ledger_of(coldkey),
                m.len() < u32::MAX,
                start == old(self).pending_deposits@.len(),
                start + m.len() <= usize::MAX,
                total0 == old(self).total_unbonding_balance,
                self.only_unbonding_changed(*old(self)),
                self.stake_unbonding_ledger@ == old(self).stake_unbonding_ledger@,
                self.pending_deposits@.len() == start + count,
                self.pending_deposits@.take(start) == old(self).pending_deposits@,
                count <= it.index(),
                it.index() <= m.len(),
                self.total_unbonding_balance == sub_claims(total0, self.pending_deposits@.skip(start)),
                forall|i: int| start <= i < self.pending_deposits@.len() ==> {
                    &&& (#[trigger] self.pending_deposits@[i]).account == coldkey
                    &&& m.contains_key(self.pending_deposits@[i].unbonding_block)
                    &&& m[self.pending_deposits@[i].unbonding_block] == self.pending_deposits@[i].amount
                    &&& self.pending_deposits@[i].unbonding_block <= block
                    &&& !copy@.contains_key(self.pending_deposits@[i].unbonding_block)
                },
                forall|i: int, j: int| start <= i < j < self.pending_deposits@.len() ==>
                    (#[trigger] self.pending_deposits@[i]).unbonding_block != (#[trigger] self.pending_deposits@[j]).unbonding_block,
                forall|q: u32| #[trigger] copy@.contains_key(q) ==> m.contains_key(q) && copy@[q] == m[q],
                forall|q: u32| m.contains_key(q) && block < q ==> copy@.contains_key(q),
                forall|q: u32| m.contains_key(q) && q <= block && #[trigger] copy@.contains_key(q) ==>
                    exists|j: int| it.index() <= j < it.seq().len() && *it.seq()[j].0 == q,
                forall|q: u32| m.contains_key(q) && !#[trigger] copy@.contains_key(q) ==> {
                    &&& pos.contains_key(q)
                    &&& start <= pos[q] < self.pending_deposits@.len()
                    &&& self.pending_deposits@[pos[q]].unbonding_block == q
                    &&& ipos.contains_key(q)
                    &&& 0 <= ipos[q] < it.index()
                    &&& *it.seq()[ipos[q]].0 == q
                    &&& q <= block
                },
        {
            if *k <= block {
                proof {
                    let idx = it.index();
                    assert(*it.seq()[idx].0 == *k);
                    if !copy@.contains_key(*k) {
                        let e = ipos[*k];
                        assert(*it.seq()[e].0 == *k);
                        assert(*it.seq()[e].1 == m[*k]);
                        assert(*it.seq()[idx].1 == m[*k]);
                        assert(it.seq()[e] == it.seq()[idx]);
                        assert(false);
                    }
                    pos = pos.insert(*k, self.pending_deposits@.len() as int);
                    ipos = ipos.insert(*k, idx);
                }
                let ghost before = self.pending_deposits@;
                copy.remove(k);
                self.pending_deposits.push(PendingDeposit { account: coldkey, unbonding_block: *k, amount: *v });
                self.total_unbonding_balance = self.total_unbonding_balance.saturating_sub(*v);
                count = count + 1;
                proof {
                    let after = self.pending_deposits@;
                    assert(after.skip(start).drop_last() =~= before.skip(start));
                    assert(after.take(start) =~= before.take(start));
                }
            }
        }
        proof {
            let claimed = self.pending_deposits@.skip(start);
            assert forall|q: u32| m.contains_key(q) && q <= block implies exists|i: int|
                0 <= i < claimed.len() && (#[trigger] claimed[i]).unbonding_block == q by {
                assert(!copy@.contains_key(q));
                assert(claimed[pos[q] - start].unbonding_block == q);
            }
            assert forall|i: int, j: int| 0 <= i < j < claimed.len() implies
                (#[trigger] claimed[i]).unbonding_block != (#[trigger] claimed[j]).unbonding_block by {
                assert(claimed[i] == self.pending_deposits@[start + i]);
                assert(claimed[j] == self.pending_deposits@[start + j]);
            }
            assert forall|i: int| 0 <= i < claimed.len() implies {
                &&& (#[trigger] claimed[i]).account == coldkey
                &&& m.contains_key(claimed[i].unbonding_block)
                &&& m[claimed[i].unbonding_block] == claimed[i].amount
                &&& claimed[i].unbonding_block <= block
            } by {
                assert(claimed[i] == self.pending_deposits@[start + i]);
            }
        }
        if count > 0 {
            proof {
                assert(copy@ =~= future_part(m, block));
            }
            self.stake_unbonding_ledger.insert(coldkey, copy);
        }
        count
    }

    /// `final` follows `old` by an automatic claim of `coldkey`'s matured
    /// unbondings at `block` when `auto` holds, and by no change otherwise; the
    /// ledger of `coldkey` is then `l1` and the unbonding total `t1`.
    pub open spec fn auto_claimed(&self, o: Network, coldkey: u64, block: u32, auto: bool) -> bool {
        let claimed = self.pending_deposits@.skip(o.pending_deposits@.len() as int);
        &&& self.pending_deposits@.len() >= o.pending_deposits@.len()
        &&& self.pending_deposits@.take(o.pending_deposits@.len() as int) == o.pending_deposits@
        &&& auto ==> claims_of(claimed, coldkey, o.ledger_of(coldkey), block)
        &&& !auto ==> claimed.len() == 0
        &&& forall|a: u64| a != coldkey ==> #[trigger] self.ledger_of(a) == o.ledger_of(a)
    }

    /// Whether `coldkey`'s ledger has room for one more unbonding at `block`,
    /// once its matured unbondings are claimed when it is full.
    pub open spec fn unbonding_has_room(&self, coldkey: u64, block: u32) -> bool {
        let m0 = self.ledger_of(coldkey);
        let l1 = if (m0.len() as u32) == self.max_unbondings { future_part(m0, block) } else { m0 };
        l1.len() < self.max_unbondings
    }

    /// `unbonding_has_room`, computed without claiming anything.
    pub fn unbonding_room(&self, coldkey: u64, block: u32) -> (r: bool)
        ensures
            r == self.unbonding_has_room(coldkey, block),
    {
        let ledger = self.get_ledger(coldkey);
        if ledger.len() as u32 != self.max_unbondings {
            return ledger.len() < self.max_unbondings as usize;
        }
        let mut future: BTreeMap<u32, u128> = BTreeMap::new();
        let ghost m0 = ledger@;
        for (k, v) in it: ledger.iter()
            invariant
                m0 == ledger@,
                forall|q: u32| #[trigger] future@.contains_key(q) ==> m0.contains_key(q) && block < q && future@[q] == m0[q],
                forall|q: u32| #[trigger] m0.contains_key(q) && block < q && !future@.contains_key(q) ==>
                    exists|j: int| it.index() <= j < it.seq().len() && *it.seq()[j].0 == q,
        {
            let ghost idx = it.index();
            proof {
                assert(*it.seq()[idx].0 == *k);
                assert(*it.seq()[idx].1 == *v);
            }
            if block < *k {
                future.insert(*k, *v);
            }
            proof {
                assert forall|q: u32| #[trigger] m0.contains_key(q) && block < q && !future@.contains_key(q) implies
                    exists|j: int| idx + 1 <= j < it.seq().len() && *it.seq()[j].0 == q by {
                    let j = choose|j: int| idx <= j < it.seq().len() && *it.seq()[j].0 == q;
                    assert(j != idx);
                }
            }
        }
        proof {
            assert forall|q: u32| m0.contains_key(q) && block < q implies #[trigger] future@.contains_key(q) by {
                if !future@.contains_key(q) {
                    assert(m0.contains_key(q));
                }
            }
            assert(future@ =~= future_part(m0, block));
        }
        future.len() < self.max_unbondings as usize
    }

    /// `final` follows `o` by adding `amount` to `coldkey`'s unbondings at
    /// `block + cooldown_blocks` (saturating), after claiming matured unbondings
    /// when the ledger was full; `ok` tells whether there was room for it.
    pub open spec fn unbonding_added(&self, o: Network, coldkey: u64, amount: u128, cooldown_blocks: u32, block: u32, ok: bool) -> bool {
        let m0 = o.ledger_of(coldkey);
        let auto = (m0.len() as u32) == o.max_unbondings;
        let l1 = if auto { future_part(m0, block) } else { m0 };
        let claimed = self.pending_deposits@.skip(o.pending_deposits@.len() as int);
        let t1 = sub_claims(o.total_unbonding_balance, claimed);
        let claim_block = if block as int + cooldown_blocks as int > u32::MAX { u32::MAX } else { (block + cooldown_blocks) as u32 };
        &&& self.auto_claimed(o, coldkey, block, auto)
        &&& ok == o.unbonding_has_room(coldkey, block)
        &&& !ok ==> self.ledger_of(coldkey) == l1 && self.total_unbonding_balance == t1
        &&& ok ==> self.ledger_of(coldkey) == l1.insert(claim_block, sat_add(get_or(l1, claim_block, 0u128), amount))
            && self.stake_unbonding_ledger@.contains_key(coldkey)
            && self.total_unbonding_balance == sat_add(t1, amount)
    }

    /// Add `amount` to `coldkey`'s unbondings, claimable at `block + cooldown_blocks`.
    /// When the ledger is full, matured unbondings are claimed first; the call
    /// fails when the ledger is still full.
    pub fn add_balance_to_unbonding_ledger(&mut self, coldkey: u64, amount: u128, cooldown_blocks: u32, block: u32)
        -> (r: Result<(), NetworkError>)
        requires
            old(self).ledger_of(coldkey).len() < u32::MAX,
            old(self).pending_deposits@.len() + old(self).ledger_of(coldkey).len() <= usize::MAX,
        ensures
            final(self).unbonding_added(*old(self), coldkey, amount, cooldown_blocks, block, r is Ok),
            r is Err ==> r == Err::<(), NetworkError>(NetworkError::MaxUnlockingsReached),
            final(self).only_unbonding_changed(*old(self)),
            old(self).ledger_of(coldkey).len() <= old(self).max_unbondings
                ==> final(self).ledger_of(coldkey).len() <= final(self).max_unbondings,
    {
        let claim_block = block.saturating_add(cooldown_blocks);
        let unbondings = self.get_ledger(coldkey);
        let auto = (unbondings.len() as u32) == self.max_unbondings;
        if auto {
            self.do_claim_unbondings(coldkey, block);
        }
        let mut unbondings = self.get_ledger(coldkey);
        proof {
            let m0 = old(self).ledger_of(coldkey);
            if !auto {
                assert(self.pending_deposits@.skip(old(self).pending_deposits@.len() as int) =~= Seq::<PendingDeposit>::empty());
                assert(self.pending_deposits@.take(old(self).pending_deposits@.len() as int) =~= old(self).pending_deposits@);
            } else {
                let claimed = self.pending_deposits@.skip(old(self).pending_deposits@.len() as int);
                if claimed.len() == 0 {
                    assert forall|q: u32| m0.contains_key(q) implies block < q by {
                        if q <= block {
                            let i = choose|i: int| 0 <= i < claimed.len() && (#[trigger] claimed[i]).unbonding_block == q;
                        }
                    }
                    assert(future_part(m0, block) =~= m0);
                }
            }
        }
        if !(unbondings.len() < self.max_unbondings as usize) {
            proof {
                assert(self.unbonding_added(*old(self), coldkey, amount, cooldown_blocks, block, false));
                if old(self).ledger_of(coldkey).len() <= old(self).max_unbondings {
                    lemma_unbonding_ledger_bounded(*old(self), *self, coldkey, amount, cooldown_blocks, block, false);
                }
            }
            return Err(NetworkError::MaxUnlockingsReached);
        }
        let current: u128 = match unbondings.get(&claim_block) {
            Some(v) => *v,
            None => 0,
        };
        unbondings.insert(claim_block, current.saturating_add(amount));
        let ghost mid = *self;
        self.stake_unbonding_ledger.insert(coldkey, unbondings);
        self.total_unbonding_balance = self.total_unbonding_balance.saturating_add(amount);
        proof {
            assert forall|a: u64| a != coldkey implies #[trigger] self.ledger_of(a) == old(self).ledger_of(a) by {
                assert(mid.ledger_of(a) == old(self).ledger_of(a));
            }
            assert(self.unbonding_added(*old(self), coldkey, amount, cooldown_blocks, block, true));
            if old(self).ledger_of(coldkey).len() <= old(self).max_unbondings {
                lemma_unbonding_ledger_bounded(*old(self), *self, coldkey, amount, cooldown_blocks, block, true);
            }
        }
        Ok(())
    }

    /// Pay out the caller's matured unbondings (the `claim_unbondings` call);
    /// fails when there is none to pay out.
    pub fn claim_unbondings(&mut self, coldkey: u64, block: u32) -> (r: Result<(), NetworkError>)
        requires
            old(self).ledger_of(coldkey).len() < u32::MAX,
            old(self).pending_deposits@.len() + old(self).ledger_of(coldkey).len() <= usize::MAX,
        ensures
            old(self).tx_pause ==> r == Err::<(), NetworkError>(NetworkError::Paused) && *final(self) == *old(self),
            !old(self).tx_pause ==> {
                let claimed = final(self).pending_deposits@.skip(old(self).pending_deposits@.len() as int);
                &&& final(self).pending_deposits@.len() >= old(self).pending_deposits@.len()
                &&& final(self).pending_deposits@.take(old(self).pending_deposits@.len() as int) == old(self).pending_deposits@
                &&& claims_of(claimed, coldkey, old(self).ledger_of(coldkey), block)
                &&& final(self).total_unbonding_balance == sub_claims(old(self).total_unbonding_balance, claimed)
                &&& (r is Ok) == (claimed.len() > 0)
                &&& r is Err ==> r == Err::<(), NetworkError>(NetworkError::NoStakeUnbondingsOrCooldownNotMet)
                    && final(self).stake_unbonding_ledger@ == old(self).stake_unbonding_ledger@
                &&& r is Ok ==> final(self).ledger_of(coldkey) == future_part(old(self).ledger_of(coldkey), block)
                &&& forall|a: u64| a != coldkey ==> #[trigger] final(self).ledger_of(a) == old(self).ledger_of(a)
                &&& final(self).only_unbonding_changed(*old(self))
            },
    {
        if self.tx_pause {
            return Err(NetworkError::Paused);
        }
        let successful = self.do_claim_unbondings(coldkey, block);
        if successful == 0 {
            return Err(NetworkError::NoStakeUnbondingsOrCooldownNotMet);
        }
        Ok(())
    }
}

} // verus!

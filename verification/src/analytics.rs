//! Trading statistics: the volume swapped and the LP fees collected, per
//! epoch and token.
use crate::biguint::{values_of, BigUint};
use crate::tokens::bytes_eq;
use crate::{token_views, StablePool};
use vstd::prelude::*;

verus! {

/// One amount recorded for an epoch and a token.
#[derive(Debug)]
pub struct EpochTokenAmount {
    pub(crate) epoch: u64,
    pub(crate) token: Vec<u8>,
    pub(crate) amount: BigUint,
}

/// Whether the record is kept for `epoch` and `token`.
pub closed spec fn record_matches(e: EpochTokenAmount, epoch: u64, token: Seq<u8>) -> bool {
    e.epoch == epoch && e.token@ == token
}

/// The first position, from `from` on, of a record for `epoch` and `token`,
/// or -1.
pub closed spec fn find_record(entries: Seq<EpochTokenAmount>, epoch: u64, token: Seq<u8>, from: nat) -> int
    decreases entries.len() - from,
{
    if from >= entries.len() {
        -1
    } else if record_matches(entries[from as int], epoch, token) {
        from as int
    } else {
        find_record(entries, epoch, token, from + 1)
    }
}

/// The amount recorded for `epoch` and `token` (0 when none is).
pub closed spec fn lookup_amount(entries: Seq<EpochTokenAmount>, epoch: u64, token: Seq<u8>) -> nat {
    let i = find_record(entries, epoch, token, 0);
    if i < 0 {
        0
    } else {
        entries[i].amount@
    }
}

/// The records as a map from (epoch, token) to amount, 0 where none is kept.
pub closed spec fn analytics_map(entries: Seq<EpochTokenAmount>) -> Map<(u64, Seq<u8>), nat> {
    Map::new(|k: (u64, Seq<u8>)| true, |k: (u64, Seq<u8>)| lookup_amount(entries, k.0, k.1))
}

/// No amount recorded for any epoch or token.
pub open spec fn no_statistics() -> Map<(u64, Seq<u8>), nat> {
    Map::new(|k: (u64, Seq<u8>)| true, |k: (u64, Seq<u8>)| 0nat)
}

/// Without records, every amount is 0.
pub(crate) proof fn lemma_no_records()
    ensures
        analytics_map(Seq::<EpochTokenAmount>::empty()) == no_statistics(),
{
    assert(analytics_map(Seq::<EpochTokenAmount>::empty()) =~= no_statistics());
}

proof fn lemma_find_bounds(entries: Seq<EpochTokenAmount>, epoch: u64, token: Seq<u8>, from: nat)
    ensures
        find_record(entries, epoch, token, from) == -1 || (from <= find_record(
            entries,
            epoch,
            token,
            from,
        ) < entries.len() && record_matches(
            entries[find_record(entries, epoch, token, from)],
            epoch,
            token,
        )),
        find_record(entries, epoch, token, from) == -1 ==> forall|k: int|
            from <= k < entries.len() ==> !record_matches(entries[k], epoch, token),
        forall|k: int|
            from <= k < find_record(entries, epoch, token, from) ==> !record_matches(
                entries[k],
                epoch,
                token,
            ),
    decreases entries.len() - from,
{
    if from < entries.len() {
        lemma_find_bounds(entries, epoch, token, from + 1);
    }
}

/// Records with the same keys at every position are searched alike.
proof fn lemma_find_same_keys(
    s1: Seq<EpochTokenAmount>,
    s2: Seq<EpochTokenAmount>,
    epoch: u64,
    token: Seq<u8>,
    from: nat,
)
    requires
        s1.len() == s2.len(),
        forall|k: int|
            0 <= k < s1.len() ==> (s1[k].epoch == s2[k].epoch && s1[k].token@ == s2[k].token@),
    ensures
        find_record(s1, epoch, token, from) == find_record(s2, epoch, token, from),
    decreases s1.len() - from,
{
    if from < s1.len() {
        lemma_find_same_keys(s1, s2, epoch, token, from + 1);
    }
}

/// Appending a record leaves earlier finds alone and makes the new record
/// the first one for its key when there was none.
proof fn lemma_find_push(
    s: Seq<EpochTokenAmount>,
    e: EpochTokenAmount,
    epoch: u64,
    token: Seq<u8>,
    from: nat,
)
    requires
        from <= s.len(),
    ensures
        find_record(s.push(e), epoch, token, from) == if find_record(s, epoch, token, from) >= 0 {
            find_record(s, epoch, token, from)
        } else if record_matches(e, epoch, token) {
            s.len() as int
        } else {
            -1
        },
    decreases s.len() - from,
{
    if from < s.len() {
        assert(s.push(e)[from as int] == s[from as int]);
        lemma_find_push(s, e, epoch, token, from + 1);
    } else {
        assert(s.push(e)[from as int] == e);
        assert(find_record(s.push(e), epoch, token, from + 1) == -1);
    }
}

/// The amount recorded for `epoch` and `token`.
fn read_amount(entries: &Vec<EpochTokenAmount>, epoch: u64, token: &Vec<u8>) -> (r: BigUint)
    ensures
        r@ == analytics_map(entries@)[(epoch, token@)],
{
    let mut k: usize = 0;
    while k < entries.len()
        invariant
            0 <= k <= entries.len(),
            find_record(entries@, epoch, token@, k as nat) == find_record(entries@, epoch, token@, 0),
        decreases entries.len() - k,
    {
        if entries[k].epoch == epoch && bytes_eq(&entries[k].token, token) {
            return entries[k].amount.clone_value();
        }
        k += 1;
    }
    BigUint::from_u64(0)
}

/// The records with `vol` added to the amount of `epoch` and `token`.
fn add_amount(entries: &Vec<EpochTokenAmount>, epoch: u64, token: &Vec<u8>, vol: &BigUint) -> (r: Vec<
    EpochTokenAmount,
>)
    ensures
        analytics_map(r@) == analytics_map(entries@).insert(
            (epoch, token@),
            analytics_map(entries@)[(epoch, token@)] + vol@,
        ),
{
    let ghost old_map = analytics_map(entries@);
    let mut out: Vec<EpochTokenAmount> = Vec::new();
    let mut found: bool = false;
    let mut k: usize = 0;
    while k < entries.len()
        invariant
            0 <= k <= entries.len(),
            out.len() == k,
            found ==> find_record(entries@, epoch, token@, 0) < k,
            !found ==> find_record(entries@, epoch, token@, k as nat) == find_record(
                entries@,
                epoch,
                token@,
                0,
            ),
            forall|m: int|
                0 <= m < k ==> (out@[m].epoch == entries@[m].epoch && out@[m].token@
                    == entries@[m].token@),
            forall|m: int|
                0 <= m < k && m != find_record(entries@, epoch, token@, 0) ==> out@[m].amount@
                    == entries@[m].amount@,
            found ==> out@[find_record(entries@, epoch, token@, 0)].amount@ == entries@[find_record(
                entries@,
                epoch,
                token@,
                0,
            )].amount@ + vol@,
            found ==> 0 <= find_record(entries@, epoch, token@, 0),
        decreases entries.len() - k,
    {
        let is_key = !found && entries[k].epoch == epoch && bytes_eq(&entries[k].token, token);
        let amount = if is_key {
            entries[k].amount.plus(vol)
        } else {
            entries[k].amount.clone_value()
        };
        proof {
            if is_key {
                assert(find_record(entries@, epoch, token@, k as nat) == k);
            } else if !found {
                assert(find_record(entries@, epoch, token@, k as nat) == find_record(
                    entries@,
                    epoch,
                    token@,
                    (k + 1) as nat,
                ));
            }
        }
        out.push(EpochTokenAmount { epoch: entries[k].epoch, token: entries[k].token.clone(), amount });
        if is_key {
            found = true;
        }
        k += 1;
    }
    let ghost before_push = out@;
    if !found {
        out.push(EpochTokenAmount { epoch, token: token.clone(), amount: vol.clone_value() });
    }
    proof {
        lemma_find_same_keys(before_push, entries@, epoch, token@, 0);
        assert forall|key: (u64, Seq<u8>)| #![auto]
            analytics_map(out@)[key] == old_map.insert(
                (epoch, token@),
                old_map[(epoch, token@)] + vol@,
            )[key] by {
            lemma_find_same_keys(before_push, entries@, key.0, key.1, 0);
            lemma_find_bounds(entries@, key.0, key.1, 0);
            lemma_find_bounds(entries@, epoch, token@, 0);
            if !found {
                lemma_find_push(before_push, out@.last(), key.0, key.1, 0);
                assert(before_push.push(out@.last()) == out@);
            }
        }
        assert(analytics_map(out@) =~= old_map.insert((epoch, token@), old_map[(epoch, token@)] + vol@));
    }
    out
}

/// The statistics of one epoch: per token of the pool, in order, the volume
/// swapped and the LP fees collected.
#[derive(Debug)]
pub struct AnalyticsForEpoch {
    pub epoch: u64,
    pub volume: Vec<BigUint>,
    pub lp_fees: Vec<BigUint>,
}

/// Recording and reading trading statistics.
pub trait AnalyticsModule {
    /// Adds `vol` to the LP fees of `token` in `epoch`.
    fn analytics_add_lp_fees(&mut self, token: &Vec<u8>, vol: &BigUint, epoch: u64);

    /// Adds `vol` to the volume of `token` in `epoch`.
    fn analytics_add_volume(&mut self, token: &Vec<u8>, vol: &BigUint, epoch: u64);

    /// The LP fees of `token` in `epoch`.
    fn lp_fees(&self, epoch: u64, token: &Vec<u8>) -> BigUint;

    /// The volume of `token` in `epoch`.
    fn trading_volume(&self, epoch: u64, token: &Vec<u8>) -> BigUint;

    /// The statistics of the `countback` epochs before `current_epoch`,
    /// oldest first.
    fn do_get_analytics_for_last_epochs(
        &self,
        countback: u64,
        tokens: &Vec<Vec<u8>>,
        current_epoch: u64,
    ) -> Vec<AnalyticsForEpoch>
        requires
            countback <= current_epoch,
    ;
}

impl AnalyticsModule for StablePool {
    fn analytics_add_lp_fees(&mut self, token: &Vec<u8>, vol: &BigUint, epoch: u64)
        ensures
            final(self)@ == old(self)@.with_lp_fees(
                old(self)@.lp_fees.insert((epoch, token@), old(self)@.lp_fees[(epoch, token@)] + vol@),
            ),
    {
        proof {
            use_type_invariant(&*self);
        }
        let updated = add_amount(&self.lp_fees, epoch, token, vol);
        self.lp_fees = updated;
    }

    fn analytics_add_volume(&mut self, token: &Vec<u8>, vol: &BigUint, epoch: u64)
        ensures
            final(self)@ == old(self)@.with_trading_volume(
                old(self)@.trading_volume.insert(
                    (epoch, token@),
                    old(self)@.trading_volume[(epoch, token@)] + vol@,
                ),
            ),
    {
        proof {
            use_type_invariant(&*self);
        }
        let updated = add_amount(&self.trading_volume, epoch, token, vol);
        self.trading_volume = updated;
    }

    fn lp_fees(&self, epoch: u64, token: &Vec<u8>) -> (r: BigUint)
        ensures
            r@ == self@.lp_fees[(epoch, token@)],
    {
        read_amount(&self.lp_fees, epoch, token)
    }

    fn trading_volume(&self, epoch: u64, token: &Vec<u8>) -> (r: BigUint)
        ensures
            r@ == self@.trading_volume[(epoch, token@)],
    {
        read_amount(&self.trading_volume, epoch, token)
    }

    fn do_get_analytics_for_last_epochs(
        &self,
        countback: u64,
        tokens: &Vec<Vec<u8>>,
        current_epoch: u64,
    ) -> (r: Vec<AnalyticsForEpoch>)
        ensures
            r.len() == countback,
            forall|k: int|
                #![trigger r@[k]]
                0 <= k < countback ==> {
                    &&& r@[k].epoch == current_epoch - countback + k
                    &&& values_of(r@[k].volume@) == token_views(tokens@).map_values(
                        |t: Seq<u8>| self@.trading_volume[(r@[k].epoch, t)],
                    )
                    &&& values_of(r@[k].lp_fees@) == token_views(tokens@).map_values(
                        |t: Seq<u8>| self@.lp_fees[(r@[k].epoch, t)],
                    )
                },
    {
        let mut res: Vec<AnalyticsForEpoch> = Vec::new();
        let first = current_epoch - countback;
        let mut epoch = first;
        while epoch < current_epoch
            invariant
                first == current_epoch - countback,
                first <= epoch <= current_epoch,
                res.len() == epoch - first,
                forall|k: int|
                    #![trigger res@[k]]
                    0 <= k < res.len() ==> {
                        &&& res@[k].epoch == current_epoch - countback + k
                        &&& values_of(res@[k].volume@) == token_views(tokens@).map_values(
                            |t: Seq<u8>| self@.trading_volume[(res@[k].epoch, t)],
                        )
                        &&& values_of(res@[k].lp_fees@) == token_views(tokens@).map_values(
                            |t: Seq<u8>| self@.lp_fees[(res@[k].epoch, t)],
                        )
                    },
            decreases current_epoch - epoch,
        {
            let mut volume: Vec<BigUint> = Vec::new();
            let mut lp_fees: Vec<BigUint> = Vec::new();
            let mut t: usize = 0;
            while t < tokens.len()
                invariant
                    0 <= t <= tokens.len(),
                    volume.len() == t,
                    lp_fees.len() == t,
                    forall|m: int|
                        0 <= m < t ==> #[trigger] volume@[m]@ == self@.trading_volume[(
                            epoch,
                            tokens@[m]@,
                        )],
                    forall|m: int|
                        0 <= m < t ==> #[trigger] lp_fees@[m]@ == self@.lp_fees[(
                            epoch,
                            tokens@[m]@,
                        )],
                decreases tokens.len() - t,
            {
                volume.push(self.trading_volume(epoch, &tokens[t]));
                lp_fees.push(self.lp_fees(epoch, &tokens[t]));
                t += 1;
            }
            proof {
                assert(values_of(volume@) =~= token_views(tokens@).map_values(
                    |t: Seq<u8>| self@.trading_volume[(epoch, t)],
                ));
                assert(values_of(lp_fees@) =~= token_views(tokens@).map_values(
                    |t: Seq<u8>| self@.lp_fees[(epoch, t)],
                ));
            }
            res.push(AnalyticsForEpoch { epoch, volume, lp_fees });
            epoch += 1;
        }
        res
    }
}

} // verus!

//! The fee estimator.
//!
//! Gas price parameters are derived from the fee history of a window of
//! recent blocks: the base fee of the window's last block, and the median
//! of the sampled per-block rewards. The suggested maximum fee is the sum
//! of the two, clamped from below by a fixed minimum. Note that the clamp
//! compares a base-fee-inclusive total against a priority-fee-scale
//! constant; the formula is deliberate and kept as is.
use vstd::prelude::*;
use vstd::relations::{sorted_by, total_ordering};
use crate::rpc_types::{ConsensusReply, FeeHistory, RpcError};

verus! {

/// Lower clamp applied to the suggested maximum fee per gas, in the
/// native fee unit.
pub const MIN_SUGGEST_MAX_PRIORITY_FEE_PER_GAS: u128 = 1_500_000_000;

/// The agreed value of one fee-history query: the window's history —
/// which a provider may also report absent — or the error every provider
/// reported.
#[derive(Debug, Clone)]
pub enum FeeHistoryResult {
    History(Option<FeeHistory>),
    Error(RpcError),
}

/// A fee-history read the estimator cannot use.
#[derive(Debug, Clone)]
pub enum FeeHistoryError {
    Missing,
    Rpc(RpcError),
    InconsistentResponse,
}

/// Classifies a consensus-checked fee-history reply: an agreed history is
/// handed through; an absent history, an agreed error and provider
/// disagreement are all fatal for this estimate, with no retry.
pub fn classify_fee_history_reply(reply: ConsensusReply<FeeHistoryResult>) -> (r: Result<
    FeeHistory,
    FeeHistoryError,
>)
    ensures
        forall|h: FeeHistory|
            reply == ConsensusReply::Consistent(FeeHistoryResult::History(Some(h))) ==> r
                == Ok::<FeeHistory, FeeHistoryError>(h),
        reply == ConsensusReply::Consistent(FeeHistoryResult::History(None)) ==> r == Err::<
            FeeHistory,
            FeeHistoryError,
        >(FeeHistoryError::Missing),
        forall|e: RpcError|
            reply == ConsensusReply::Consistent(FeeHistoryResult::Error(e)) ==> r == Err::<
                FeeHistory,
                FeeHistoryError,
            >(FeeHistoryError::Rpc(e)),
        reply is Inconsistent ==> r == Err::<FeeHistory, FeeHistoryError>(
            FeeHistoryError::InconsistentResponse,
        ),
{
    match reply {
        ConsensusReply::Consistent(FeeHistoryResult::History(Some(h))) => Ok(h),
        ConsensusReply::Consistent(FeeHistoryResult::History(None)) => Err(
            FeeHistoryError::Missing,
        ),
        ConsensusReply::Consistent(FeeHistoryResult::Error(e)) => Err(FeeHistoryError::Rpc(e)),
        ConsensusReply::Inconsistent(_) => Err(FeeHistoryError::InconsistentResponse),
    }
}

/// Suggested gas price parameters of one transaction.
#[derive(Debug, Clone, Copy, PartialEq, Eq, Structural)]
pub struct FeeEstimates {
    pub max_fee_per_gas: u128,
    pub max_priority_fee_per_gas: u128,
}

/// The order fees are sorted by.
pub open spec fn fee_leq() -> spec_fn(u128, u128) -> bool {
    |x: u128, y: u128| x <= y
}

/// The fee order is total.
pub proof fn lemma_fee_leq_total()
    ensures
        total_ordering(fee_leq()),
{
    assert forall|x: u128| #[trigger] fee_leq()(x, x) by {}
}

/// Index of the median element of an ascending list of the given length.
pub open spec fn spec_median_index(length: nat) -> nat {
    ((length - 1) / 2) as nat
}

/// Index of the median element of an ascending list of `length` elements.
pub fn median_index(length: usize) -> (r: usize)
    requires
        length > 0,
    ensures
        r == spec_median_index(length as nat),
{
    (length - 1) / 2
}

/// All per-block reward samples of a window, in window order.
pub open spec fn spec_flatten(rs: Seq<Vec<u128>>) -> Seq<u128>
    decreases rs.len(),
{
    if rs.len() == 0 {
        Seq::empty()
    } else {
        spec_flatten(rs.drop_last()) + rs.last()@
    }
}

/// The window's reward samples in ascending order.
pub open spec fn spec_sorted_rewards(h: &FeeHistory) -> Seq<u128> {
    spec_flatten(h.reward@).sort_by(fee_leq())
}

/// The median reward of the window: the element at the median index of
/// the ascending samples, or zero when the window has fewer samples.
pub open spec fn spec_median_reward(h: &FeeHistory, window: nat) -> u128 {
    let sorted = spec_sorted_rewards(h);
    if spec_median_index(window) < sorted.len() {
        sorted[spec_median_index(window) as int]
    } else {
        0
    }
}

/// Flattens the per-block reward lists into one list, in window order.
pub fn flatten_rewards(reward: &Vec<Vec<u128>>) -> (r: Vec<u128>)
    ensures
        r@ == spec_flatten(reward@),
{
    let mut out: Vec<u128> = Vec::new();
    let mut i: usize = 0;
    while i < reward.len()
        invariant
            i <= reward@.len(),
            out@ == spec_flatten(reward@.subrange(0, i as int)),
        decreases reward@.len() - i,
    {
        out.extend_from_slice(reward[i].as_slice());
        i = i + 1;
        proof {
            assert(reward@.subrange(0, i as int).drop_last() =~= reward@.subrange(0, i - 1));
            assert(out@ =~= spec_flatten(reward@.subrange(0, i as int)));
        }
    }
    proof {
        assert(reward@.subrange(0, reward@.len() as int) =~= reward@);
    }
    out
}

/// Sorts the fee samples ascending; the result is the unique ascending
/// arrangement of the input's elements.
pub fn sort_fees(values: Vec<u128>) -> (r: Vec<u128>)
    ensures
        r@ == values@.sort_by(fee_leq()),
        sorted_by(r@, fee_leq()),
        r@.to_multiset() == values@.to_multiset(),
        r@.len() == values@.len(),
{
    broadcast use vstd::seq_lib::to_multiset_update;
    broadcast use vstd::seq_lib::group_to_multiset_ensures;
    broadcast use vstd::multiset::group_multiset_axioms;

    let ghost orig = values@;
    let mut v = values;
    let n = v.len();
    let mut i: usize = 1;
    while i < n && n > 0
        invariant
            n == v@.len(),
            1 <= i <= n || (n == 0 && i == 1),
            v@.to_multiset() == orig.to_multiset(),
            forall|a: int, b: int| 0 <= a < b < i ==> v@[a] <= v@[b],
        decreases n - i,
    {
        let mut j: usize = i;
        while j > 0 && v[j - 1] > v[j]
            invariant
                n == v@.len(),
                0 <= j <= i < n,
                v@.to_multiset() == orig.to_multiset(),
                forall|a: int, b: int| 0 <= a < b <= i && b != j ==> v@[a] <= v@[b],
                forall|b: int| j < b <= i ==> v@[j as int] <= v@[b],
            decreases j,
        {
            let x = v[j - 1];
            let y = v[j];
            let ghost before = v@;
            v.set(j - 1, y);
            v.set(j, x);
            proof {
                let mid = before.update(j - 1, y);
                vstd::seq_lib::to_multiset_update(before, j - 1, y);
                vstd::seq_lib::to_multiset_update(mid, j as int, x);
                assert(mid.to_multiset() == before.to_multiset().insert(y).remove(x));
                assert(mid[j as int] == y);
                assert(v@ == mid.update(j as int, x));
                assert(v@.to_multiset() == mid.to_multiset().insert(x).remove(y));
                before.to_multiset_ensures();
                mid.to_multiset_ensures();
                assert(before.contains(x));
                assert(before.to_multiset().count(x) > 0);
                assert(mid.to_multiset().insert(x).count(y) > 0);
                assert forall|e: u128| v@.to_multiset().count(e) == before.to_multiset().count(
                    e,
                ) by {
                    assert(v@.to_multiset().count(e) == mid.to_multiset().insert(x).remove(
                        y,
                    ).count(e));
                    assert(mid.to_multiset().count(e) == before.to_multiset().insert(y).remove(
                        x,
                    ).count(e));
                }
                assert(v@.to_multiset() =~= before.to_multiset());
            }
            j = j - 1;
        }
        i = i + 1;
    }
    proof {
        assert(sorted_by(v@, fee_leq())) by {
            assert(forall|a: int, b: int|
                0 <= a < b < v@.len() ==> #[trigger] fee_leq()(v@[a], v@[b]));
        }
        lemma_fee_leq_total();
        orig.lemma_sort_by_ensures(fee_leq());
        vstd::seq_lib::lemma_sorted_unique(v@, orig.sort_by(fee_leq()), fee_leq());
        assert(v@ =~= orig.sort_by(fee_leq()));
    }
    v
}

/// Derives the gas price parameters from a fee history window of
/// `window` blocks: the suggested priority fee is the median reward of
/// the window (zero when the window has fewer samples), and the suggested
/// maximum fee is that median plus the base fee of the window's last
/// block, clamped from below by `MIN_SUGGEST_MAX_PRIORITY_FEE_PER_GAS`.
pub fn estimate_fees(window: usize, history: &FeeHistory) -> (r: FeeEstimates)
    requires
        window > 0,
        history.base_fee_per_gas@.len() > 0,
        spec_median_reward(history, window as nat) + history.base_fee_per_gas@.last()
            <= u128::MAX,
    ensures
        r.max_priority_fee_per_gas == spec_median_reward(history, window as nat),
        r.max_fee_per_gas == if spec_median_reward(history, window as nat)
            + history.base_fee_per_gas@.last() > MIN_SUGGEST_MAX_PRIORITY_FEE_PER_GAS {
            (spec_median_reward(history, window as nat)
                + history.base_fee_per_gas@.last()) as u128
        } else {
            MIN_SUGGEST_MAX_PRIORITY_FEE_PER_GAS
        },
{
    let base_fee_per_gas = history.base_fee_per_gas[history.base_fee_per_gas.len() - 1];
    let m = median_index(window);
    let flat = flatten_rewards(&history.reward);
    let sorted = sort_fees(flat);
    let median_reward = if m < sorted.len() {
        sorted[m]
    } else {
        0
    };
    let sum = median_reward + base_fee_per_gas;
    let max_fee_per_gas = if sum > MIN_SUGGEST_MAX_PRIORITY_FEE_PER_GAS {
        sum
    } else {
        MIN_SUGGEST_MAX_PRIORITY_FEE_PER_GAS
    };
    FeeEstimates { max_fee_per_gas, max_priority_fee_per_gas: median_reward }
}

} // verus!

use vstd::prelude::*;

use crate::math::{lemma_total_nonneg, total};
use crate::state::GridModel;

verus! {

/// The two assets of a grid, each held in its own vault.
#[derive(Clone, Copy, Debug, PartialEq, Eq, Structural)]
pub enum Asset {
    Base,
    Quote,
}

/// Direction of a token movement relative to the grid's vault.
#[derive(Clone, Copy, Debug, PartialEq, Eq, Structural)]
pub enum Flow {
    /// From the caller's account into the vault, authorized by the caller.
    IntoVault,
    /// From the vault to the caller's account, authorized by the grid's signer.
    OutOfVault,
}

/// A token movement that the ledger asks its caller to carry out.
#[derive(Clone, Copy, Debug, PartialEq, Eq, Structural)]
pub struct Transfer {
    pub asset: Asset,
    pub flow: Flow,
    pub amount: u64,
}

/// The sum of the amounts of `asset` moved in direction `flow`.
pub open spec fn moved(ts: Seq<Transfer>, asset: Asset, flow: Flow) -> int
    decreases ts.len(),
{
    if ts.len() == 0 {
        0
    } else {
        moved(ts.drop_last(), asset, flow) + if ts.last().asset == asset && ts.last().flow
            == flow {
            ts.last().amount as int
        } else {
            0
        }
    }
}

/// What the ledger owes out of the vault of `asset`: the inventories of every
/// slot in that asset and the profits in it, and for quote the protocol fees
/// besides.
pub open spec fn holdings(g: GridModel, asset: Asset) -> int {
    match asset {
        Asset::Base => total(g.ask_remaining) + total(g.bid_reverse_base) + g.profits_base,
        Asset::Quote => total(g.ask_reverse_quote) + total(g.bid_remaining_quote)
            + g.profits_quote + g.protocol_fees_quote,
    }
}

/// The movements `ts` account exactly for the change of the ledger from
/// `before` to `after`, in both vaults.
pub open spec fn conserves(before: GridModel, after: GridModel, ts: Seq<Transfer>) -> bool {
    &&& holdings(before, Asset::Base) + moved(ts, Asset::Base, Flow::IntoVault) == holdings(
        after,
        Asset::Base,
    ) + moved(ts, Asset::Base, Flow::OutOfVault)
    &&& holdings(before, Asset::Quote) + moved(ts, Asset::Quote, Flow::IntoVault) == holdings(
        after,
        Asset::Quote,
    ) + moved(ts, Asset::Quote, Flow::OutOfVault)
}

/// The grid's books start out exactly as funded: what the ledger owes in each
/// asset is what was deposited, and nothing was paid out.
pub open spec fn funded(g: GridModel, ts: Seq<Transfer>) -> bool {
    &&& holdings(g, Asset::Base) == moved(ts, Asset::Base, Flow::IntoVault)
    &&& holdings(g, Asset::Quote) == moved(ts, Asset::Quote, Flow::IntoVault)
    &&& moved(ts, Asset::Base, Flow::OutOfVault) == 0
    &&& moved(ts, Asset::Quote, Flow::OutOfVault) == 0
}

/// The sum, over a run of calls, of what each call moved of `asset` in
/// direction `flow`.
pub open spec fn run_moved(runs: Seq<Seq<Transfer>>, asset: Asset, flow: Flow) -> int
    decreases runs.len(),
{
    if runs.len() == 0 {
        0
    } else {
        run_moved(runs.drop_last(), asset, flow) + moved(runs.last(), asset, flow)
    }
}

pub proof fn lemma_holdings_nonneg(g: GridModel, asset: Asset)
    ensures
        holdings(g, asset) >= 0,
{
    lemma_total_nonneg(g.ask_remaining);
    lemma_total_nonneg(g.bid_reverse_base);
    lemma_total_nonneg(g.ask_reverse_quote);
    lemma_total_nonneg(g.bid_remaining_quote);
}

proof fn lemma_run_prefix(states: Seq<GridModel>, runs: Seq<Seq<Transfer>>, asset: Asset, k: int)
    requires
        states.len() == runs.len() + 1,
        0 <= k <= runs.len(),
        forall|i: int| 0 <= i < runs.len() ==> conserves(states[i], states[i + 1], runs[i]),
    ensures
        run_moved(runs.take(k), asset, Flow::OutOfVault) + holdings(states[k], asset) == holdings(
            states[0],
            asset,
        ) + run_moved(runs.take(k), asset, Flow::IntoVault),
    decreases k,
{
    if k == 0 {
        assert(runs.take(0).len() == 0);
    } else {
        lemma_run_prefix(states, runs, asset, k - 1);
        assert(runs.take(k).drop_last() =~= runs.take(k - 1));
        assert(runs.take(k).last() == runs[k - 1]);
        assert(conserves(states[k - 1], states[k], runs[k - 1]));
    }
}

/// Fund conservation: over any run of calls on one grid that starts from its
/// funding and in which each call accounts exactly for the change it makes,
/// what has left a vault equals the initial funding plus later deposits minus
/// what the ledger still owes, so it never exceeds the funding plus deposits.
pub proof fn lemma_funds_conserved(
    initial: Seq<Transfer>,
    states: Seq<GridModel>,
    runs: Seq<Seq<Transfer>>,
    asset: Asset,
)
    requires
        states.len() == runs.len() + 1,
        funded(states[0], initial),
        forall|i: int| 0 <= i < runs.len() ==> conserves(states[i], states[i + 1], runs[i]),
    ensures
        run_moved(runs, asset, Flow::OutOfVault) + holdings(states.last(), asset) == moved(
            initial,
            asset,
            Flow::IntoVault,
        ) + run_moved(runs, asset, Flow::IntoVault),
        run_moved(runs, asset, Flow::OutOfVault) <= moved(initial, asset, Flow::IntoVault)
            + run_moved(runs, asset, Flow::IntoVault),
{
    lemma_run_prefix(states, runs, asset, runs.len() as int);
    assert(runs.take(runs.len() as int) =~= runs);
    lemma_holdings_nonneg(states.last(), asset);
}

} // verus!

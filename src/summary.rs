//! Summaries of a portfolio's cost, grouped by a key that classifies each lot.
use vstd::prelude::*;
use crate::currency::{Currency, CurrencyError, CurrencyFailure, CurrencyModel, currency_sum};
use crate::decimal::Decimal;
use crate::lot::{Lot, LotModel, lot_total_cost};
use crate::text::{trimmed, ascii_uppercase};

verus! {

/// The identity of a portfolio, assigned by its owner.
pub type Id = u32;

/// A named collection of lots.
#[derive(Clone, Debug, PartialEq, Eq)]
pub struct Portfolio {
    pub id: Id,
    pub lots: Vec<Lot>,
}

/// The views of a sequence of lots.
pub open spec fn lots_view(lots: Seq<Lot>) -> Seq<LotModel> {
    lots.map_values(|l: Lot| l@)
}

/// The cost of one group of lots.
#[derive(Clone, Debug, PartialEq, Eq)]
pub struct GroupSummary {
    pub cost: Currency,
}

/// Why a group summary was refused.
#[derive(Clone, Debug, PartialEq, Eq)]
pub enum GroupSummaryError {
    NegativeCost { cost: Currency },
}

impl GroupSummary {
    /// A group summary; refused where the cost is below zero.
    pub fn new(cost: Currency) -> (r: Result<GroupSummary, GroupSummaryError>)
        ensures
            cost@.amount.0 >= 0 ==> (r matches Ok(g) && g.cost@ == cost@),
            cost@.amount.0 < 0 ==> (r matches Err(GroupSummaryError::NegativeCost { cost: c })
                && c@ == cost@),
    {
        if cost.amount().is_negative() {
            Err(GroupSummaryError::NegativeCost { cost })
        } else {
            Ok(GroupSummary { cost })
        }
    }
}

/// The cost of a portfolio's lots, grouped by key; one entry per key, in the order in
/// which the keys first occur among the lots.
#[derive(Clone, Debug, PartialEq, Eq)]
pub struct PortfolioSummary<K> {
    pub id: Id,
    /// The mapping from key to group, as (key, group) pairs with unique keys. A list
    /// keeps the mapping exact for keys (texts, asset classes) whose hashing has no
    /// model to reason with; its order is fixed by the lots.
    pub group_to_summary: Vec<(K, GroupSummary)>,
}

/// The views of the groups of a summary: (key, cost) pairs.
pub open spec fn groups_view<K: View>(groups: Seq<(K, GroupSummary)>) -> Seq<(K::V, CurrencyModel)> {
    groups.map_values(|p: (K, GroupSummary)| (p.0@, p.1.cost@))
}

impl<K: View> View for PortfolioSummary<K> {
    type V = (Id, Seq<(K::V, CurrencyModel)>);

    open spec fn view(&self) -> (Id, Seq<(K::V, CurrencyModel)>) {
        (self.id, groups_view(self.group_to_summary@))
    }
}

/// Why a summary could not be computed, with the failed operation's operands.
pub enum SummaryFailure {
    /// A lot's total cost (cost basis times quantity) could not be computed.
    LotTotalCost(CurrencyFailure<(int, nat)>),
    /// A lot's total cost could not be added to its group's cost.
    SummaryCost(CurrencyFailure<CurrencyModel>),
}

/// A summary that could not be computed, with the failed operation's error.
#[derive(Clone, Debug, PartialEq, Eq)]
pub enum PortfolioSummaryError {
    LotTotalCostError { cause: CurrencyError<Decimal> },
    SummaryCostError { cause: CurrencyError<Currency> },
}

impl PortfolioSummaryError {
    /// Which failure this is, with the operands of the failed operation.
    pub open spec fn failure(self) -> SummaryFailure {
        match self {
            PortfolioSummaryError::LotTotalCostError { cause } => SummaryFailure::LotTotalCost(
                cause.failure(),
            ),
            PortfolioSummaryError::SummaryCostError { cause } => SummaryFailure::SummaryCost(
                cause.failure(),
            ),
        }
    }
}

/// A key that groups lots: each lot has exactly one.
pub trait GroupKey: Sized + View {
    /// The key of a lot.
    spec fn key_of(lot: LotModel) -> Self::V;

    /// Computes the key of a lot.
    fn classify(lot: &Lot) -> (r: Self)
        ensures
            r@ == Self::key_of(lot@),
    ;

    /// Whether two keys are the same.
    fn same_key(&self, other: &Self) -> (r: bool)
        ensures
            r == (self@ == other@),
    ;
}

/// The position of a key among (key, cost) pairs, or -1 where it is absent.
pub open spec fn key_index<V>(groups: Seq<(V, CurrencyModel)>, k: V) -> int {
    if exists|i: int| 0 <= i < groups.len() && groups[i].0 == k {
        choose|i: int| 0 <= i < groups.len() && groups[i].0 == k
    } else {
        -1
    }
}

/// Whether no key occurs twice among (key, cost) pairs.
pub open spec fn keys_unique<V>(groups: Seq<(V, CurrencyModel)>) -> bool {
    forall|i: int, j: int|
        0 <= i < groups.len() && 0 <= j < groups.len() && i != j ==> groups[i].0 != groups[j].0
}

/// The groups after one more lot with key `k`: the lot's total cost is added to the
/// group of `k`, which starts at zero in `unit` where it is new.
pub open spec fn add_lot<V>(
    groups: Seq<(V, CurrencyModel)>,
    k: V,
    lot: LotModel,
    unit: Seq<char>,
) -> Result<Seq<(V, CurrencyModel)>, SummaryFailure> {
    let i = key_index(groups, k);
    let prev = if i >= 0 {
        groups[i].1
    } else {
        CurrencyModel { amount: (0int, 0nat), symbol: unit }
    };
    match lot_total_cost(lot) {
        Err(f) => Err(SummaryFailure::LotTotalCost(f)),
        Ok(c) => match currency_sum(prev, c) {
            Err(f) => Err(SummaryFailure::SummaryCost(f)),
            Ok(s) => Ok(
                if i >= 0 {
                    groups.update(i, (k, s))
                } else {
                    groups.push((k, s))
                },
            ),
        },
    }
}

/// The groups of a sequence of lots, taken in order, with new groups starting in `unit`;
/// the first failure stops the fold.
pub open spec fn fold_lots<K: GroupKey>(lots: Seq<LotModel>, unit: Seq<char>) -> Result<
    Seq<(K::V, CurrencyModel)>,
    SummaryFailure,
>
    decreases lots.len(),
{
    if lots.len() == 0 {
        Ok(Seq::empty())
    } else {
        match fold_lots::<K>(lots.drop_last(), unit) {
            Err(f) => Err(f),
            Ok(g) => add_lot(g, K::key_of(lots.last()), lots.last(), unit),
        }
    }
}

/// The groups of a portfolio's lots: none for no lots; else the fold, in the unit of
/// the first lot's cost basis.
pub open spec fn summarize<K: GroupKey>(lots: Seq<LotModel>) -> Result<
    Seq<(K::V, CurrencyModel)>,
    SummaryFailure,
> {
    if lots.len() == 0 {
        Ok(Seq::empty())
    } else {
        fold_lots::<K>(lots, lots[0].cost_basis.symbol)
    }
}

/// The view of the outcome of summarizing a portfolio.
pub open spec fn summary_result_view<K: View>(
    r: Result<PortfolioSummary<K>, PortfolioSummaryError>,
) -> Result<(Id, Seq<(K::V, CurrencyModel)>), SummaryFailure> {
    match r {
        Ok(s) => Ok(s@),
        Err(e) => Err(e.failure()),
    }
}

/// The summary of a portfolio with id `id`.
pub open spec fn summary_of<K: GroupKey>(id: Id, lots: Seq<LotModel>) -> Result<
    (Id, Seq<(K::V, CurrencyModel)>),
    SummaryFailure,
> {
    match summarize::<K>(lots) {
        Ok(g) => Ok((id, g)),
        Err(f) => Err(f),
    }
}

/// A failure within a prefix of the lots is the failure of the whole fold.
pub proof fn lemma_fold_failure_persists<K: GroupKey>(lots: Seq<LotModel>, unit: Seq<char>, n: int)
    requires
        0 <= n <= lots.len(),
        fold_lots::<K>(lots.take(n), unit) is Err,
    ensures
        fold_lots::<K>(lots, unit) == fold_lots::<K>(lots.take(n), unit),
    decreases lots.len() - n,
{
    if n < lots.len() {
        assert(lots.take(n + 1).drop_last() == lots.take(n));
        lemma_fold_failure_persists::<K>(lots, unit, n + 1);
    } else {
        assert(lots.take(n) == lots);
    }
}

/// Folding one more lot into groups whose keys are unique keeps them unique.
proof fn lemma_add_lot_unique<V>(groups: Seq<(V, CurrencyModel)>, k: V, lot: LotModel, unit: Seq<char>)
    requires
        keys_unique(groups),
        add_lot(groups, k, lot, unit) is Ok,
    ensures
        keys_unique(add_lot(groups, k, lot, unit)->Ok_0),
{
    let i = key_index(groups, k);
    if i >= 0 {
        assert(groups[i].0 == k);
    } else {
        assert(forall|j: int| 0 <= j < groups.len() ==> groups[j].0 != k);
    }
}

/// Whether a failure is an overflow.
pub open spec fn is_overflow(f: SummaryFailure) -> bool {
    ||| f matches SummaryFailure::LotTotalCost(CurrencyFailure::Overflow { .. })
    ||| f matches SummaryFailure::SummaryCost(CurrencyFailure::Overflow { .. })
}

/// A fold that succeeds keeps every group in `unit` and had every lot in `unit`; a fold
/// that fails does so on an overflow, or on adding the cost of a lot in another unit to a
/// group in `unit`.
proof fn lemma_fold_units<K: GroupKey>(lots: Seq<LotModel>, unit: Seq<char>)
    ensures
        fold_lots::<K>(lots, unit) matches Ok(g) ==> (forall|k: int|
            0 <= k < g.len() ==> (#[trigger] g[k]).1.symbol == unit) && (forall|i: int|
            0 <= i < lots.len() ==> (#[trigger] lots[i]).cost_basis.symbol == unit),
        fold_lots::<K>(lots, unit) matches Err(f) ==> is_overflow(f) || (f matches SummaryFailure::SummaryCost(
            CurrencyFailure::SymbolMismatch { left, right },
        ) && left == unit && right != unit && exists|i: int|
            0 <= i < lots.len() && lots[i].cost_basis.symbol == right),
    decreases lots.len(),
{
    if lots.len() > 0 {
        let pre = lots.drop_last();
        lemma_fold_units::<K>(pre, unit);
        match fold_lots::<K>(pre, unit) {
            Err(f) => {
                if !is_overflow(f) {
                    let i = choose|i: int| 0 <= i < pre.len() && pre[i].cost_basis.symbol == f->SummaryCost_0->SymbolMismatch_right;
                    assert(lots[i] == pre[i]);
                }
            },
            Ok(g) => {
                let x = lots.last();
                let k = K::key_of(x);
                let idx = key_index(g, k);
                if idx >= 0 {
                    assert(g[idx].1.symbol == unit);
                }
                if let Ok(g2) = add_lot(g, k, x, unit) {
                    assert forall|i: int| 0 <= i < lots.len() implies (#[trigger] lots[i]).cost_basis.symbol
                        == unit by {
                        if i < pre.len() {
                            assert(lots[i] == pre[i]);
                        }
                    }
                    assert forall|m: int| 0 <= m < g2.len() implies (#[trigger] g2[m]).1.symbol
                        == unit by {
                        if m < g.len() && m != idx {
                            assert(g2[m] == g[m]);
                        }
                    }
                } else {
                    assert(lots[lots.len() - 1] == x);
                }
            },
        }
    }
}

/// Lots whose cost bases are in more than one currency unit never summarize. Where `j`
/// is the first lot in a unit other than the first lot's, the summary fails on adding
/// its cost, in its unit, to a group in the first lot's unit, unless an overflow comes
/// first.
pub proof fn lemma_mixed_units_fail<K: GroupKey>(lots: Seq<LotModel>, j: int)
    requires
        0 <= j < lots.len(),
        lots[j].cost_basis.symbol != lots[0].cost_basis.symbol,
        forall|i: int| 0 <= i < j ==> (#[trigger] lots[i]).cost_basis.symbol == lots[0].cost_basis.symbol,
    ensures
        summarize::<K>(lots) is Err,
        is_overflow(summarize::<K>(lots)->Err_0) || summarize::<K>(lots)->Err_0 == SummaryFailure::SummaryCost(
            CurrencyFailure::SymbolMismatch {
                left: lots[0].cost_basis.symbol,
                right: lots[j].cost_basis.symbol,
            },
        ),
{
    let unit = lots[0].cost_basis.symbol;
    let pre = lots.take(j);
    lemma_fold_units::<K>(pre, unit);
    match fold_lots::<K>(pre, unit) {
        Err(f) => {
            if !is_overflow(f) {
                let i = choose|i: int| 0 <= i < pre.len() && pre[i].cost_basis.symbol == f->SummaryCost_0->SymbolMismatch_right;
                assert(pre[i] == lots[i]);
            }
            lemma_fold_failure_persists::<K>(lots, unit, j);
        },
        Ok(g) => {
            assert(lots.take(j + 1).drop_last() == pre);
            assert(lots.take(j + 1).last() == lots[j]);
            let k = K::key_of(lots[j]);
            let idx = key_index(g, k);
            if idx >= 0 {
                assert(g[idx].1.symbol == unit);
            }
            assert(fold_lots::<K>(lots.take(j + 1), unit) is Err);
            lemma_fold_failure_persists::<K>(lots, unit, j + 1);
        },
    }
}

/// Whether some group has key `k`.
pub open spec fn has_group<V>(groups: Seq<(V, CurrencyModel)>, k: V) -> bool {
    exists|j: int| 0 <= j < groups.len() && groups[j].0 == k
}

/// Whether some lot has key `k`.
pub open spec fn is_lot_key<K: GroupKey>(lots: Seq<LotModel>, k: K::V) -> bool {
    exists|i: int| 0 <= i < lots.len() && K::key_of(lots[i]) == k
}

/// Whether the keys of the groups are exactly the keys of the lots.
pub open spec fn same_keys<K: GroupKey>(lots: Seq<LotModel>, groups: Seq<(K::V, CurrencyModel)>) -> bool {
    &&& forall|i: int| 0 <= i < lots.len() ==> #[trigger] has_group(groups, K::key_of(lots[i]))
    &&& forall|j: int| 0 <= j < groups.len() ==> #[trigger] is_lot_key::<K>(lots, groups[j].0)
}

/// Folding one more lot keeps the keys there were, and adds its key at the end where
/// it is new.
proof fn lemma_add_lot_keys<V>(g: Seq<(V, CurrencyModel)>, k: V, x: LotModel, unit: Seq<char>)
    requires
        add_lot(g, k, x, unit) is Ok,
    ensures
        g.len() <= add_lot(g, k, x, unit)->Ok_0.len() <= g.len() + 1,
        forall|j: int| 0 <= j < g.len() ==> add_lot(g, k, x, unit)->Ok_0[j].0 == g[j].0,
        forall|j: int|
            g.len() <= j < add_lot(g, k, x, unit)->Ok_0.len() ==> add_lot(g, k, x, unit)->Ok_0[j].0
                == k,
        exists|j: int| 0 <= j < add_lot(g, k, x, unit)->Ok_0.len() && add_lot(g, k, x, unit)->Ok_0[j].0 == k,
{
    let idx = key_index(g, k);
    let g2 = add_lot(g, k, x, unit)->Ok_0;
    if idx >= 0 {
        assert(g[idx].0 == k);
        assert(g2[idx].0 == k);
    } else {
        assert(g2[g.len() as int].0 == k);
    }
}

/// A fold that succeeds has a group for the key of each lot, and no other group.
#[verifier::rlimit(30)]
proof fn lemma_fold_keys<K: GroupKey>(lots: Seq<LotModel>, unit: Seq<char>)
    ensures
        fold_lots::<K>(lots, unit) matches Ok(g) ==> same_keys::<K>(lots, g),
    decreases lots.len(),
{
    if lots.len() > 0 {
        let pre = lots.drop_last();
        lemma_fold_keys::<K>(pre, unit);
        if let Ok(g) = fold_lots::<K>(pre, unit) {
            let x = lots.last();
            let k = K::key_of(x);
            if let Ok(g2) = add_lot(g, k, x, unit) {
                lemma_add_lot_keys(g, k, x, unit);
                assert forall|i: int| 0 <= i < lots.len() implies #[trigger] has_group(
                    g2,
                    K::key_of(lots[i]),
                ) by {
                    if i < pre.len() {
                        assert(lots[i] == pre[i]);
                        assert(has_group(g, K::key_of(pre[i])));
                        let j = choose|j: int| 0 <= j < g.len() && g[j].0 == K::key_of(pre[i]);
                        assert(g2[j].0 == g[j].0);
                    }
                }
                assert forall|j: int| 0 <= j < g2.len() implies #[trigger] is_lot_key::<K>(
                    lots,
                    g2[j].0,
                ) by {
                    if j < g.len() {
                        assert(is_lot_key::<K>(pre, g[j].0));
                        let i = choose|i: int| 0 <= i < pre.len() && K::key_of(pre[i]) == g[j].0;
                        assert(lots[i] == pre[i]);
                    } else {
                        assert(K::key_of(lots[lots.len() - 1]) == g2[j].0);
                    }
                }
            }
        }
    }
}

/// A summary that succeeds has one group for each distinct key among the lots: lots
/// that share a key share a group, and lots with different keys are in different
/// groups.
pub proof fn lemma_summary_groups_by_key<K: GroupKey>(lots: Seq<LotModel>)
    requires
        summarize::<K>(lots) is Ok,
    ensures
        same_keys::<K>(lots, summarize::<K>(lots)->Ok_0),
        keys_unique(summarize::<K>(lots)->Ok_0),
{
    if lots.len() > 0 {
        lemma_fold_keys::<K>(lots, lots[0].cost_basis.symbol);
        lemma_fold_keys_unique::<K>(lots, lots[0].cost_basis.symbol);
    }
}

/// A fold that succeeds never has two groups with one key.
proof fn lemma_fold_keys_unique<K: GroupKey>(lots: Seq<LotModel>, unit: Seq<char>)
    ensures
        fold_lots::<K>(lots, unit) matches Ok(g) ==> keys_unique(g),
    decreases lots.len(),
{
    if lots.len() > 0 {
        lemma_fold_keys_unique::<K>(lots.drop_last(), unit);
        if let Ok(g) = fold_lots::<K>(lots.drop_last(), unit) {
            if add_lot(g, K::key_of(lots.last()), lots.last(), unit) is Ok {
                lemma_add_lot_unique(g, K::key_of(lots.last()), lots.last(), unit);
            }
        }
    }
}

impl Portfolio {
    /// The summary of the lots grouped by `K`: no groups for no lots; else, for each
    /// lot in order, its total cost is added to its group's cost, new groups starting
    /// at zero in the unit of the first lot's cost basis; the first failure is returned.
    pub fn get_summary_by<K: GroupKey>(&self) -> (r: Result<PortfolioSummary<K>, PortfolioSummaryError>)
        ensures
            summary_result_view(r) == summary_of::<K>(self.id, lots_view(self.lots@)),
            self.lots@.len() == 0 ==> (r matches Ok(s) && s@ == (self.id, Seq::<(K::V, CurrencyModel)>::empty())),
            r matches Ok(s) ==> keys_unique(s@.1),
    {
        let ghost lots = lots_view(self.lots@);
        if self.lots.len() == 0 {
            let empty: Vec<(K, GroupSummary)> = Vec::new();
            assert(groups_view(empty@) == Seq::<(K::V, CurrencyModel)>::empty());
            return Ok(PortfolioSummary { id: self.id, group_to_summary: empty });
        }
        let zero = self.lots[0].cost_basis().zero_like();
        let ghost unit = lots[0].cost_basis.symbol;
        let mut groups: Vec<(K, GroupSummary)> = Vec::new();
        assert(lots.take(0) == Seq::<LotModel>::empty());
        assert(groups_view(groups@) == Seq::<(K::V, CurrencyModel)>::empty());
        let n = self.lots.len();
        for i in 0..n
            invariant
                n == self.lots@.len(),
                lots == lots_view(self.lots@),
                unit == lots[0].cost_basis.symbol,
                zero@ == (CurrencyModel { amount: (0int, 0nat), symbol: unit }),
                fold_lots::<K>(lots.take(i as int), unit) == Ok::<
                    Seq<(K::V, CurrencyModel)>,
                    SummaryFailure,
                >(groups_view(groups@)),
                keys_unique(groups_view(groups@)),
        {
            let ghost before = groups_view(groups@);
            assert(lots.take(i + 1).drop_last() == lots.take(i as int));
            assert(lots.take(i + 1).last() == lots[i as int]);
            let lot = &self.lots[i];
            let key = K::classify(lot);
            let mut found: usize = groups.len();
            let mut j: usize = 0;
            while j < groups.len()
                invariant_except_break
                    found == groups.len(),
                invariant
                    j <= groups.len(),
                    before == groups_view(groups@),
                    forall|m: int| 0 <= m < j ==> before[m].0 != key@,
                ensures
                    found < groups.len() ==> before[found as int].0 == key@,
                    found == groups.len() ==> forall|m: int|
                        0 <= m < before.len() ==> before[m].0 != key@,
                    found <= groups.len(),
                decreases groups.len() - j,
            {
                if groups[j].0.same_key(&key) {
                    found = j;
                    break;
                }
                j = j + 1;
            }
            proof {
                if found < groups.len() {
                    assert(before[found as int].0 == key@);
                    assert(key_index(before, key@) == found as int);
                } else {
                    assert(forall|m: int| 0 <= m < before.len() ==> before[m].0 != key@);
                    assert(key_index(before, key@) == -1);
                }
            }
            let cost = match lot.get_total_cost() {
                Ok(c) => c,
                Err(cause) => {
                    proof {
                        lemma_fold_failure_persists::<K>(lots, unit, i + 1);
                        assert(lots.take(n as int) == lots);
                    }
                    return Err(PortfolioSummaryError::LotTotalCostError { cause });
                },
            };
            let prev = if found < groups.len() {
                &groups[found].1.cost
            } else {
                &zero
            };
            let sum = match prev.add(&cost) {
                Ok(s) => s,
                Err(cause) => {
                    proof {
                        lemma_fold_failure_persists::<K>(lots, unit, i + 1);
                        assert(lots.take(n as int) == lots);
                    }
                    return Err(PortfolioSummaryError::SummaryCostError { cause });
                },
            };
            proof {
                lemma_add_lot_unique(before, key@, lots[i as int], unit);
            }
            if found < groups.len() {
                let entry_key = K::classify(lot);
                groups.set(found, (entry_key, GroupSummary { cost: sum }));
            } else {
                groups.push((key, GroupSummary { cost: sum }));
            }
            assert(groups_view(groups@) == add_lot(before, key@, lots[i as int], unit)->Ok_0);
        }
        assert(lots.take(n as int) == lots);
        Ok(PortfolioSummary { id: self.id, group_to_summary: groups })
    }

    /// The summary grouped by ticker symbol (trimmed, in upper case).
    pub fn get_summary_by_symbol(&self) -> (r: Result<PortfolioSummary<String>, PortfolioSummaryError>)
        ensures
            summary_result_view(r) == summary_of::<String>(self.id, lots_view(self.lots@)),
    {
        self.get_summary_by::<String>()
    }
}

impl GroupKey for String {
    open spec fn key_of(lot: LotModel) -> Seq<char> {
        ascii_uppercase(trimmed(lot.symbol))
    }

    fn classify(lot: &Lot) -> (r: String) {
        lot.symbol().as_str().trim().to_ascii_uppercase()
    }

    fn same_key(&self, other: &String) -> (r: bool) {
        *self == *other
    }
}

} // verus!

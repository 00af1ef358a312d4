//! The change-feed pipeline: the decisions of the consumer that keeps the derived
//! summaries and its resume checkpoint up to date. The caller performs each action
//! (reading the checkpoint, opening and reading the feed, writing views and the
//! checkpoint) and reports its outcome as the next input.
use vstd::prelude::*;
use crate::allocation::{AssetClass, get_summary_by_asset_class};
use crate::currency::CurrencyModel;
use crate::lot::LotModel;
use crate::store::{MemoryStore, ViewStoreModel};
use crate::summary::{
    Id,
    Portfolio,
    PortfolioSummary,
    PortfolioSummaryError,
    SummaryFailure,
    lots_view,
    summary_of,
    summary_result_view,
};

verus! {

/// The kinds of change that the feed reports.
#[derive(Clone, Copy, Debug, PartialEq, Eq, Structural)]
pub enum OperationType {
    Insert,
    Replace,
    Update,
    Delete,
    Other,
}

/// One change of a portfolio, with the feed position just after it.
#[derive(Clone, Debug, PartialEq, Eq)]
pub struct ChangeEvent<P> {
    pub operation: OperationType,
    pub full_document: Option<Portfolio>,
    pub position: P,
}

/// The view of a portfolio: its id and lots.
pub open spec fn portfolio_view(p: Portfolio) -> (Id, Seq<LotModel>) {
    (p.id, lots_view(p.lots@))
}

/// The view of an optional portfolio.
pub open spec fn document_view(d: Option<Portfolio>) -> Option<(Id, Seq<LotModel>)> {
    match d {
        Some(p) => Some(portfolio_view(p)),
        None => None,
    }
}

/// What processing one change event requires.
#[derive(Debug)]
pub enum EventPlan {
    /// Store both summaries of the portfolio; each may instead have failed.
    Summarize {
        id: Id,
        by_asset_class: Result<PortfolioSummary<AssetClass>, PortfolioSummaryError>,
        by_symbol: Result<PortfolioSummary<String>, PortfolioSummaryError>,
    },
    /// The event is of a kind that is not supported, or carries no document: skip it.
    Skip { operation: OperationType },
}

/// What processing one change event requires, as values.
pub enum EventPlanModel {
    Summarize {
        id: Id,
        by_asset_class: Result<(Id, Seq<(AssetClass, CurrencyModel)>), SummaryFailure>,
        by_symbol: Result<(Id, Seq<(Seq<char>, CurrencyModel)>), SummaryFailure>,
    },
    Skip { operation: OperationType },
}

impl View for EventPlan {
    type V = EventPlanModel;

    open spec fn view(&self) -> EventPlanModel {
        match self {
            EventPlan::Summarize { id, by_asset_class, by_symbol } => EventPlanModel::Summarize {
                id: *id,
                by_asset_class: summary_result_view(*by_asset_class),
                by_symbol: summary_result_view(*by_symbol),
            },
            EventPlan::Skip { operation } => EventPlanModel::Skip { operation: *operation },
        }
    }
}

/// The plan for an event: an insert or replace that carries the portfolio recomputes
/// both summaries from all of its lots; anything else is skipped.
pub open spec fn plan_spec(operation: OperationType, document: Option<(Id, Seq<LotModel>)>) -> EventPlanModel {
    match document {
        Some((id, lots)) if operation == OperationType::Insert || operation == OperationType::Replace => {
            EventPlanModel::Summarize {
                id,
                by_asset_class: summary_of::<AssetClass>(id, lots),
                by_symbol: summary_of::<String>(id, lots),
            }
        },
        _ => EventPlanModel::Skip { operation },
    }
}

/// Decides what processing an event requires.
pub fn plan_event(operation: OperationType, full_document: Option<&Portfolio>) -> (r: EventPlan)
    ensures
        r@ == plan_spec(
            operation,
            match full_document {
                Some(p) => Some(portfolio_view(*p)),
                None => None,
            },
        ),
{
    match full_document {
        Some(portfolio) => {
            if operation == OperationType::Insert || operation == OperationType::Replace {
                EventPlan::Summarize {
                    id: portfolio.id,
                    by_asset_class: get_summary_by_asset_class(portfolio),
                    by_symbol: portfolio.get_summary_by_symbol(),
                }
            } else {
                EventPlan::Skip { operation }
            }
        },
        None => EventPlan::Skip { operation },
    }
}

/// A view store after a plan's successful summaries have been written.
pub open spec fn apply_plan(m: ViewStoreModel, plan: EventPlanModel) -> ViewStoreModel {
    match plan {
        EventPlanModel::Summarize { id: _, by_asset_class, by_symbol } => ViewStoreModel {
            by_asset_class: match by_asset_class {
                Ok(s) => m.by_asset_class.insert(s.0, s.1),
                Err(_) => m.by_asset_class,
            },
            by_symbol: match by_symbol {
                Ok(s) => m.by_symbol.insert(s.0, s.1),
                Err(_) => m.by_symbol,
            },
        },
        EventPlanModel::Skip { .. } => m,
    }
}

/// Processing the same change event twice leaves the same stored summaries as
/// processing it once: each write overwrites, and nothing accumulates.
pub proof fn lemma_replay_is_idempotent(
    m: ViewStoreModel,
    operation: OperationType,
    document: Option<(Id, Seq<LotModel>)>,
)
    ensures
        apply_plan(apply_plan(m, plan_spec(operation, document)), plan_spec(operation, document))
            == apply_plan(m, plan_spec(operation, document)),
{
    let plan = plan_spec(operation, document);
    let once = apply_plan(m, plan);
    let twice = apply_plan(once, plan);
    if let EventPlanModel::Summarize { id: _, by_asset_class, by_symbol } = plan {
        if let Ok(s) = by_asset_class {
            assert(twice.by_asset_class =~= once.by_asset_class);
        }
        if let Ok(s) = by_symbol {
            assert(twice.by_symbol =~= once.by_symbol);
        }
    }
}

impl MemoryStore {
    /// Writes the summaries of a plan that were computed; a failed one leaves its view
    /// as it was, and does not keep the other from being written.
    pub fn apply_plan(&mut self, plan: EventPlan)
        requires
            old(self).well_formed(),
        ensures
            final(self).well_formed(),
            final(self).views() == apply_plan(old(self).views(), plan@),
            final(self).portfolios() == old(self).portfolios(),
    {
        match plan {
            EventPlan::Summarize { id: _, by_asset_class, by_symbol } => {
                if let Ok(s) = by_asset_class {
                    self.put_summary_by_asset_class(s);
                }
                if let Ok(s) = by_symbol {
                    self.put_summary_by_symbol(s);
                }
            },
            EventPlan::Skip { .. } => {},
        }
    }
}

/// Where the consumer is in its cycle.
#[derive(Clone, Debug, PartialEq, Eq)]
pub enum Phase<P> {
    /// Waiting for the stored checkpoint.
    Starting,
    /// Waiting for the next event of the feed.
    Consuming,
    /// Writing the views of the event that ends at `position`.
    Processing { position: P },
    /// Writing the checkpoint.
    Checkpointing,
    /// The feed has ended; the process should exit so that it is restarted.
    Stopped,
}

/// What the feed gave when it was read.
#[derive(Debug)]
pub enum FeedInput<P> {
    Event(ChangeEvent<P>),
    /// No event yet; the feed is alive.
    Idle,
    /// The feed has terminated.
    Ended,
    /// Reading the feed failed.
    Failed,
}

/// The outcome of the last action, handed to the consumer.
#[derive(Debug)]
pub enum Input<P> {
    CheckpointLoaded(Option<P>),
    CheckpointReadFailed,
    Feed(FeedInput<P>),
    /// Every view write of the current event was attempted (each may have failed).
    ViewsWritten,
    /// The checkpoint write was attempted; `ok` tells whether it succeeded.
    CheckpointWritten { ok: bool },
}

/// What the caller must do next.
#[derive(Debug)]
pub enum Action<P> {
    /// Open the feed to resume just after `resume_after`, or at the feed's default
    /// start where there is none.
    OpenFeed { resume_after: Option<P> },
    /// Read the next event of the feed.
    NextEvent,
    /// Write what the plan requires.
    Process(EventPlan),
    /// Store `position` as this consumer's checkpoint.
    PutCheckpoint(P),
    /// Exit with failure, to be restarted.
    Exit,
    /// The input was not expected in this phase; nothing to do.
    Ignore,
}

/// An input as values.
pub enum InputModel<P> {
    CheckpointLoaded(Option<P>),
    CheckpointReadFailed,
    Event { operation: OperationType, document: Option<(Id, Seq<LotModel>)>, position: P },
    Idle,
    Ended,
    Failed,
    ViewsWritten,
    CheckpointWritten(bool),
}

/// An action as values.
pub enum ActionModel<P> {
    OpenFeed(Option<P>),
    NextEvent,
    Process(EventPlanModel),
    PutCheckpoint(P),
    Exit,
    Ignore,
}

/// The view of an input.
pub open spec fn input_view<P>(i: Input<P>) -> InputModel<P> {
    match i {
        Input::CheckpointLoaded(p) => InputModel::CheckpointLoaded(p),
        Input::CheckpointReadFailed => InputModel::CheckpointReadFailed,
        Input::Feed(FeedInput::Event(e)) => InputModel::Event {
            operation: e.operation,
            document: document_view(e.full_document),
            position: e.position,
        },
        Input::Feed(FeedInput::Idle) => InputModel::Idle,
        Input::Feed(FeedInput::Ended) => InputModel::Ended,
        Input::Feed(FeedInput::Failed) => InputModel::Failed,
        Input::ViewsWritten => InputModel::ViewsWritten,
        Input::CheckpointWritten { ok } => InputModel::CheckpointWritten(ok),
    }
}

/// The view of an action.
pub open spec fn action_view<P>(a: Action<P>) -> ActionModel<P> {
    match a {
        Action::OpenFeed { resume_after } => ActionModel::OpenFeed(resume_after),
        Action::NextEvent => ActionModel::NextEvent,
        Action::Process(plan) => ActionModel::Process(plan@),
        Action::PutCheckpoint(p) => ActionModel::PutCheckpoint(p),
        Action::Exit => ActionModel::Exit,
        Action::Ignore => ActionModel::Ignore,
    }
}

/// One step of the consumer: the next phase and the action, for a phase and an input.
/// Starting: a loaded checkpoint opens the feed just after it; a failed read stops.
/// Consuming: an event is processed; an idle feed is read again; an ended or failed
/// feed stops. Processing: once the views were written, the event's position is
/// checkpointed. Checkpointing: whether or not the write succeeded, consuming goes on.
/// Any other input leaves the phase as it is.
pub open spec fn step_spec<P>(phase: Phase<P>, input: InputModel<P>) -> (Phase<P>, ActionModel<P>) {
    match (phase, input) {
        (Phase::Starting, InputModel::CheckpointLoaded(p)) => (
            Phase::Consuming,
            ActionModel::OpenFeed(p),
        ),
        (Phase::Starting, InputModel::CheckpointReadFailed) => (Phase::Stopped, ActionModel::Exit),
        (Phase::Consuming, InputModel::Event { operation, document, position }) => (
            Phase::Processing { position },
            ActionModel::Process(plan_spec(operation, document)),
        ),
        (Phase::Consuming, InputModel::Idle) => (Phase::Consuming, ActionModel::NextEvent),
        (Phase::Consuming, InputModel::Ended) => (Phase::Stopped, ActionModel::Exit),
        (Phase::Consuming, InputModel::Failed) => (Phase::Stopped, ActionModel::Exit),
        (Phase::Processing { position }, InputModel::ViewsWritten) => (
            Phase::Checkpointing,
            ActionModel::PutCheckpoint(position),
        ),
        (Phase::Checkpointing, InputModel::CheckpointWritten(_)) => (
            Phase::Consuming,
            ActionModel::NextEvent,
        ),
        (phase, _) => (phase, ActionModel::Ignore),
    }
}

/// The consumer of the change feed: single-threaded, one event at a time.
#[derive(Debug)]
pub struct Orchestrator<P> {
    pub phase: Phase<P>,
}

impl<P> Orchestrator<P> {
    /// A consumer that has not read its checkpoint yet.
    pub fn new() -> (r: Orchestrator<P>)
        ensures
            r.phase == Phase::<P>::Starting,
    {
        Orchestrator { phase: Phase::Starting }
    }

    /// Whether the consumer has stopped.
    pub fn is_stopped(&self) -> (r: bool)
        ensures
            r == (self.phase == Phase::<P>::Stopped),
    {
        match self.phase {
            Phase::Stopped => true,
            _ => false,
        }
    }

    /// Takes the outcome of the last action and decides the next one.
    pub fn step(self, input: Input<P>) -> (r: (Orchestrator<P>, Action<P>))
        ensures
            (r.0.phase, action_view(r.1)) == step_spec(self.phase, input_view(input)),
    {
        let (next, action) = match (self.phase, input) {
            (Phase::Starting, Input::CheckpointLoaded(p)) => (
                Phase::Consuming,
                Action::OpenFeed { resume_after: p },
            ),
            (Phase::Starting, Input::CheckpointReadFailed) => (Phase::Stopped, Action::Exit),
            (Phase::Consuming, Input::Feed(FeedInput::Event(event))) => {
                let plan = plan_event(event.operation, event.full_document.as_ref());
                (Phase::Processing { position: event.position }, Action::Process(plan))
            },
            (Phase::Consuming, Input::Feed(FeedInput::Idle)) => (Phase::Consuming, Action::NextEvent),
            (Phase::Consuming, Input::Feed(FeedInput::Ended)) => (Phase::Stopped, Action::Exit),
            (Phase::Consuming, Input::Feed(FeedInput::Failed)) => (Phase::Stopped, Action::Exit),
            (Phase::Processing { position }, Input::ViewsWritten) => (
                Phase::Checkpointing,
                Action::PutCheckpoint(position),
            ),
            (Phase::Checkpointing, Input::CheckpointWritten { .. }) => (
                Phase::Consuming,
                Action::NextEvent,
            ),
            (phase, _) => (phase, Action::Ignore),
        };
        (Orchestrator { phase: next }, action)
    }
}

/// The checkpoint is written only right after the views of an event were written, and
/// it is the position of that event: it never runs ahead of the stored summaries.
pub proof fn lemma_checkpoint_follows_views<P>(phase: Phase<P>, input: InputModel<P>, p: P)
    requires
        step_spec(phase, input).1 == ActionModel::PutCheckpoint(p),
    ensures
        phase == (Phase::Processing { position: p }),
        input == InputModel::<P>::ViewsWritten,
{
}

/// Whether feed positions strictly increase.
pub open spec fn increasing(ps: Seq<u64>) -> bool {
    forall|i: int, j: int| 0 <= i < j < ps.len() ==> ps[i] < ps[j]
}

/// Where a feed resumes: just after the last event at or before `after`; at the start
/// where there is no position.
pub open spec fn resume_index(ps: Seq<u64>, after: Option<u64>) -> int
    decreases ps.len(),
{
    match after {
        None => 0,
        Some(p) => if ps.len() == 0 {
            0
        } else if ps.last() <= p {
            ps.len() as int
        } else {
            resume_index(ps.drop_last(), after)
        },
    }
}

/// Resuming from a checkpoint at `p`: the consumer opens the feed just after `p`, and
/// from there the feed gives exactly its events after `p`, in order: none at or before
/// `p` comes again, and the first event after `p` comes first.
pub proof fn lemma_checkpoint_resume(ps: Seq<u64>, p: u64)
    requires
        increasing(ps),
    ensures
        step_spec(Phase::<u64>::Starting, InputModel::CheckpointLoaded(Some(p))) == (
        Phase::<u64>::Consuming,
        ActionModel::<u64>::OpenFeed(Some(p)),
        ),
        0 <= resume_index(ps, Some(p)) <= ps.len(),
        forall|i: int| 0 <= i < resume_index(ps, Some(p)) ==> ps[i] <= p,
        forall|i: int| resume_index(ps, Some(p)) <= i < ps.len() ==> ps[i] > p,
    decreases ps.len(),
{
    if ps.len() > 0 {
        if ps.last() <= p {
            assert forall|i: int| 0 <= i < ps.len() implies ps[i] <= p by {
                if i < ps.len() - 1 {
                    assert(ps[i] < ps[ps.len() - 1]);
                }
            }
        } else {
            let pre = ps.drop_last();
            assert(increasing(pre)) by {
                assert forall|i: int, j: int| 0 <= i < j < pre.len() implies pre[i] < pre[j] by {
                    assert(pre[i] == ps[i] && pre[j] == ps[j]);
                }
            }
            lemma_checkpoint_resume(pre, p);
            assert forall|i: int| 0 <= i < resume_index(ps, Some(p)) implies ps[i] <= p by {
                assert(ps[i] == pre[i]);
            }
            assert forall|i: int| resume_index(ps, Some(p)) <= i < ps.len() implies ps[i] > p by {
                if i < pre.len() {
                    assert(ps[i] == pre[i]);
                }
            }
        }
    }
}

/// A change feed held in memory: events in order, at increasing positions.
pub struct MemoryFeed {
    events: Vec<ChangeEvent<u64>>,
}

impl MemoryFeed {
    /// The positions of the events, in order.
    pub open spec fn positions(&self) -> Seq<u64> {
        self.events().map_values(|e: ChangeEvent<u64>| e.position)
    }

    /// The events, in order.
    pub closed spec fn events(&self) -> Seq<ChangeEvent<u64>> {
        self.events@
    }

    /// Positions increase.
    pub open spec fn well_formed(&self) -> bool {
        increasing(self.positions())
    }

    /// A feed with no events.
    pub fn new() -> (r: MemoryFeed)
        ensures
            r.well_formed(),
            r.events() == Seq::<ChangeEvent<u64>>::empty(),
    {
        MemoryFeed { events: Vec::new() }
    }

    /// Appends an event; refused, leaving the feed as it was, where its position is not
    /// above every position already there.
    pub fn append(&mut self, event: ChangeEvent<u64>) -> (r: bool)
        requires
            old(self).well_formed(),
        ensures
            final(self).well_formed(),
            r == (old(self).events().len() == 0 || old(self).positions().last() < event.position),
            r ==> final(self).events() == old(self).events().push(event),
            !r ==> final(self).events() == old(self).events(),
    {
        let n = self.events.len();
        if n == 0 || self.events[n - 1].position < event.position {
            let ghost before = self.positions();
            self.events.push(event);
            assert(self.positions() == before.push(event.position));
            assert forall|i: int, j: int|
                0 <= i < j < self.positions().len() implies self.positions()[i]
                < self.positions()[j] by {
                if j == before.len() && i < before.len() - 1 {
                    assert(before[i] < before[before.len() - 1]);
                }
            }
            true
        } else {
            false
        }
    }

    /// Opens the feed: the index of the first event to give, just after the last event at
    /// or before `resume_after`, or the first event where there is none.
    pub fn open(&self, resume_after: Option<u64>) -> (r: usize)
        requires
            self.well_formed(),
        ensures
            r as int == resume_index(self.positions(), resume_after),
    {
        match resume_after {
            None => 0,
            Some(p) => {
                let ghost ps = self.positions();
                let mut k: usize = self.events.len();
                assert(ps.take(k as int) == ps);
                while k > 0 && self.events[k - 1].position > p
                    invariant
                        k <= self.events@.len(),
                        ps == self.positions(),
                        resume_index(ps, Some(p)) == resume_index(ps.take(k as int), Some(p)),
                    decreases k,
                {
                    assert(ps.take(k as int).drop_last() == ps.take(k - 1));
                    k = k - 1;
                }
                if k > 0 {
                    assert(ps.take(k as int).last() == ps[k - 1]);
                }
                k
            },
        }
    }

    /// The event at the cursor, which then moves past it; `None` once all were given.
    pub fn next_event(&self, cursor: &mut usize) -> (r: Option<&ChangeEvent<u64>>)
        ensures
            *old(cursor) < self.events().len() ==> (r matches Some(e) && *e == self.events()[*old(cursor) as int]
                && e.position == self.positions()[*old(cursor) as int] && *final(cursor) == *old(cursor) + 1),
            *old(cursor) >= self.events().len() ==> (r is None && *final(cursor) == *old(cursor)),
    {
        if *cursor < self.events.len() {
            let e = &self.events[*cursor];
            *cursor = *cursor + 1;
            Some(e)
        } else {
            None
        }
    }
}

} // verus!

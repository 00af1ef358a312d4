use portools::allocation::AssetClass;
use portools::checkpoint::CheckpointStore;
use portools::currency::{Currency, USD};
use portools::date::Date;
use portools::decimal::Decimal;
use portools::lot::Lot;
use portools::pipeline::{
    plan_event, Action, ChangeEvent, EventPlan, FeedInput, Input, MemoryFeed, OperationType,
    Orchestrator, Phase,
};
use portools::store::MemoryStore;
use portools::summary::Portfolio;

fn lot(symbol: &str, quantity: i64, cost: &str) -> Lot {
    Lot::new(
        "Taxable",
        symbol,
        Date::from_ymd_opt(2023, 3, 27).unwrap(),
        Decimal::new(quantity, 0),
        Currency::new(Decimal::parse(cost).unwrap(), USD).unwrap(),
    )
    .unwrap()
}

fn portfolio(id: u32) -> Portfolio {
    Portfolio { id, lots: vec![lot("VOO", 1, "100.00"), lot("BND", 2, "200.00")] }
}

fn event(operation: OperationType, doc: Option<Portfolio>, position: u64) -> ChangeEvent<u64> {
    ChangeEvent { operation, full_document: doc, position }
}

#[test]
fn replaying_an_event_overwrites_the_same_summaries() {
    let mut store = MemoryStore::new();
    let doc = portfolio(9);
    store.apply_plan(plan_event(OperationType::Insert, Some(&doc)));
    let once_by_class = store.get_summary_by_asset_class(9).cloned();
    let once_by_symbol = store.get_summary_by_symbol(9).cloned();
    store.apply_plan(plan_event(OperationType::Insert, Some(&doc)));
    assert_eq!(once_by_class, store.get_summary_by_asset_class(9).cloned());
    assert_eq!(once_by_symbol, store.get_summary_by_symbol(9).cloned());
    let by_symbol = store.get_summary_by_symbol(9).unwrap();
    assert_eq!(2, by_symbol.group_to_summary.len());
    assert_eq!(
        Currency::new(Decimal::parse("100.00").unwrap(), USD).unwrap(),
        by_symbol.group_to_summary[0].1.cost
    );
    assert_eq!(AssetClass::UsStocks, store.get_summary_by_asset_class(9).unwrap().group_to_summary[0].0);
}

#[test]
fn unsupported_operations_are_skipped() {
    let doc = portfolio(1);
    for op in [OperationType::Update, OperationType::Delete, OperationType::Other] {
        match plan_event(op, Some(&doc)) {
            EventPlan::Skip { operation } => assert_eq!(op, operation),
            other => panic!("expected a skip, got {:?}", other),
        }
    }
    match plan_event(OperationType::Replace, None) {
        EventPlan::Skip { operation } => assert_eq!(OperationType::Replace, operation),
        other => panic!("expected a skip, got {:?}", other),
    }
    let mut store = MemoryStore::new();
    store.apply_plan(plan_event(OperationType::Delete, Some(&doc)));
    assert!(store.get_summary_by_symbol(1).is_none());
}

#[test]
fn checkpoint_store_keeps_one_position_per_consumer() {
    let mut store: CheckpointStore<u64> = CheckpointStore::new();
    assert_eq!(None, store.get_checkpoint("stream"));
    store.put_checkpoint("stream", Some(3));
    store.put_checkpoint("other", Some(10));
    store.put_checkpoint("stream", Some(5));
    assert_eq!(Some(&5), store.get_checkpoint("stream"));
    assert_eq!(Some(&10), store.get_checkpoint("other"));
    store.put_checkpoint("other", None);
    assert_eq!(None, store.get_checkpoint("other"));
}

#[test]
fn resuming_from_a_checkpoint_skips_events_at_or_before_it() {
    let mut feed = MemoryFeed::new();
    for position in [10u64, 20, 30, 40] {
        assert!(feed.append(event(OperationType::Insert, Some(portfolio(1)), position)));
    }
    assert!(!feed.append(event(OperationType::Insert, None, 40)));
    let mut checkpoints: CheckpointStore<u64> = CheckpointStore::new();
    checkpoints.put_checkpoint("stream", Some(20));

    let consumer: Orchestrator<u64> = Orchestrator::new();
    let stored = checkpoints.get_checkpoint("stream").copied();
    let (consumer, action) = consumer.step(Input::CheckpointLoaded(stored));
    let resume_after = match action {
        Action::OpenFeed { resume_after } => resume_after,
        other => panic!("expected to open the feed, got {:?}", other),
    };
    assert_eq!(Some(20), resume_after);
    assert_eq!(Phase::Consuming, consumer.phase);
    let mut cursor = feed.open(resume_after);
    let first = feed.next_event(&mut cursor).unwrap();
    assert_eq!(30, first.position);
    assert_eq!(40, feed.next_event(&mut cursor).unwrap().position);
    assert!(feed.next_event(&mut cursor).is_none());
    assert_eq!(0, feed.open(None));
    assert_eq!(4, feed.open(Some(45)));
    assert_eq!(0, feed.open(Some(5)));
}

#[test]
fn orchestrator_checkpoints_after_views_and_stops_when_feed_ends() {
    let consumer: Orchestrator<u64> = Orchestrator::new();
    let (consumer, action) = consumer.step(Input::CheckpointLoaded(None));
    assert!(matches!(action, Action::OpenFeed { resume_after: None }));
    let (consumer, action) = consumer.step(Input::Feed(FeedInput::Idle));
    assert!(matches!(action, Action::NextEvent));
    let (consumer, action) =
        consumer.step(Input::Feed(FeedInput::Event(event(OperationType::Replace, Some(portfolio(4)), 7))));
    match action {
        Action::Process(EventPlan::Summarize { id, by_asset_class, by_symbol }) => {
            assert_eq!(4, id);
            assert!(by_asset_class.is_ok());
            assert!(by_symbol.is_ok());
        }
        other => panic!("expected to process, got {:?}", other),
    }
    assert_eq!(Phase::Processing { position: 7 }, consumer.phase);
    let (consumer, action) = consumer.step(Input::CheckpointWritten { ok: true });
    assert!(matches!(action, Action::Ignore));
    let (consumer, action) = consumer.step(Input::ViewsWritten);
    assert!(matches!(action, Action::PutCheckpoint(7)));
    let (consumer, action) = consumer.step(Input::CheckpointWritten { ok: false });
    assert!(matches!(action, Action::NextEvent));
    assert_eq!(Phase::Consuming, consumer.phase);
    let (consumer, action) = consumer.step(Input::Feed(FeedInput::Failed));
    assert!(matches!(action, Action::Exit));
    assert!(consumer.is_stopped());
}

#[test]
fn orchestrator_stops_when_checkpoint_cannot_be_read() {
    let consumer: Orchestrator<u64> = Orchestrator::new();
    let (consumer, action) = consumer.step(Input::CheckpointReadFailed);
    assert!(matches!(action, Action::Exit));
    assert!(consumer.is_stopped());
    let (consumer, action) = consumer.step(Input::Feed(FeedInput::Ended));
    assert!(matches!(action, Action::Ignore));
    assert!(consumer.is_stopped());
}

#[test]
fn store_keeps_portfolios_by_id() {
    let mut store = MemoryStore::new();
    assert!(store.get_portfolio(2).is_none());
    store.put_portfolio(portfolio(2));
    store.put_portfolio(Portfolio { id: 2, lots: Vec::new() });
    assert_eq!(Some(&Portfolio { id: 2, lots: Vec::new() }), store.get_portfolio(2));
}

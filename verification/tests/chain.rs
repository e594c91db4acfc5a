use blocklist::authority::{
    BlockListAuthority, Capability, ListSource, LoadError, LookupError, ZoneType,
};
use blocklist::chain::{AuthorityChain, ChainOutcome, ChainStep, StoreHandle};
use blocklist::config::{
    BlockListConfig, FileConfig, ForwardConfig, RecursiveConfig, SqliteConfig, StoreConfigElement,
    StoreKind,
};
use blocklist::record::{RData, Record, RecordType, A};

fn blocklist(lists: &str) -> StoreHandle {
    let mut authority = BlockListAuthority::new(".", true, 0);
    authority.add(lists);
    StoreHandle::Blocklist(authority)
}

fn answer(name: &str) -> ChainOutcome {
    ChainOutcome::Answered(vec![Record {
        name: name.to_string(),
        record_type: RecordType::A,
        rdata: RData::A(A::new(192, 0, 2, 1)),
    }])
}

fn sinkhole(name: &str) -> ChainOutcome {
    ChainOutcome::Answered(vec![Record {
        name: name.to_string(),
        record_type: RecordType::A,
        rdata: RData::A(A::new(0, 0, 0, 0)),
    }])
}

/// Runs a lookup to its end; `forward` answers for every store outside the
/// library. Returns the outcome, the number of stores consulted and the
/// positions of the outside stores that were asked.
fn run(
    chain: &AuthorityChain,
    name: &str,
    forward: impl Fn(usize) -> ChainOutcome,
) -> (ChainOutcome, usize, Vec<usize>) {
    let mut asked = Vec::new();
    let mut step = chain.dispatch(name, RecordType::A);
    loop {
        match step {
            ChainStep::Ask(index) => {
                asked.push(index);
                step = chain.resume(index, forward(index), name, RecordType::A);
            }
            ChainStep::Done { outcome, consulted } => return (outcome, consulted, asked),
        }
    }
}

#[test]
fn chain_short_circuit() {
    let chain = AuthorityChain::new(vec![blocklist("ads.example.com\n"), StoreHandle::Forward]);
    let step = chain.dispatch("ads.example.com.", RecordType::A);
    assert_eq!(step, ChainStep::Done { outcome: sinkhole("ads.example.com."), consulted: 1 });
    let (outcome, consulted, asked) = run(&chain, "ads.example.com.", |_| answer("never"));
    assert_eq!(outcome, sinkhole("ads.example.com."));
    assert_eq!(consulted, 1);
    assert_eq!(asked, Vec::<usize>::new());
}

#[test]
fn chain_fallthrough() {
    let chain = AuthorityChain::new(vec![blocklist("ads.example.com\n"), StoreHandle::Forward]);
    let step = chain.dispatch("safe.example.com.", RecordType::A);
    assert_eq!(step, ChainStep::Ask(1));
    let (outcome, consulted, asked) =
        run(&chain, "safe.example.com.", |_| answer("safe.example.com."));
    assert_eq!(outcome, answer("safe.example.com."));
    assert_eq!(consulted, 2);
    assert_eq!(asked, vec![1]);
}

#[test]
fn nobody_handles() {
    let chain = AuthorityChain::new(vec![blocklist("ads.example.com\n"), StoreHandle::Forward]);
    let (outcome, consulted, asked) = run(&chain, "safe.example.com.", |_| ChainOutcome::NotHandled);
    assert_eq!(outcome, ChainOutcome::NotHandled);
    assert_eq!(consulted, 2);
    assert_eq!(asked, vec![1]);
    let only = AuthorityChain::new(vec![blocklist("ads.example.com\n")]);
    assert_eq!(
        only.dispatch("safe.example.com.", RecordType::A),
        ChainStep::Done { outcome: ChainOutcome::NotHandled, consulted: 1 }
    );
}

#[test]
fn failure_ends_the_lookup() {
    let chain = AuthorityChain::new(vec![
        blocklist("ads.example.com\n"),
        StoreHandle::Forward,
        StoreHandle::Recursor,
    ]);
    let failed = || ChainOutcome::Failed(LookupError::LookupFailed("timed out".to_string()));
    let (outcome, consulted, asked) = run(&chain, "safe.example.com.", |_| failed());
    assert_eq!(outcome, failed());
    assert_eq!(consulted, 2);
    assert_eq!(asked, vec![1]);
}

#[test]
fn stores_are_asked_in_order() {
    let chain = AuthorityChain::new(vec![
        StoreHandle::File,
        blocklist("ads.example.com\n"),
        StoreHandle::Database,
        blocklist("late.example.com\n"),
        StoreHandle::Recursor,
    ]);
    let (outcome, consulted, asked) = run(&chain, "safe.example.com.", |_| ChainOutcome::NotHandled);
    assert_eq!(outcome, ChainOutcome::NotHandled);
    assert_eq!(consulted, 5);
    assert_eq!(asked, vec![0, 2, 4]);
    let (outcome, consulted, asked) = run(&chain, "late.example.com.", |_| ChainOutcome::NotHandled);
    assert_eq!(outcome, sinkhole("late.example.com."));
    assert_eq!(consulted, 4);
    assert_eq!(asked, vec![0, 2]);
    let (outcome, consulted, asked) = run(&chain, "ads.example.com.", |i| {
        if i == 0 {
            answer("ads.example.com.")
        } else {
            ChainOutcome::NotHandled
        }
    });
    assert_eq!(outcome, answer("ads.example.com."));
    assert_eq!(consulted, 1);
    assert_eq!(asked, vec![0]);
}

#[test]
fn later_blocklist_is_not_reached_past_an_answer() {
    let chain = AuthorityChain::new(vec![StoreHandle::Forward, blocklist("ads.example.com\n")]);
    assert_eq!(chain.dispatch("ads.example.com.", RecordType::A), ChainStep::Ask(0));
    assert_eq!(
        chain.resume(0, answer("ads.example.com."), "ads.example.com.", RecordType::A),
        ChainStep::Done { outcome: answer("ads.example.com."), consulted: 1 }
    );
    assert_eq!(
        chain.resume(0, ChainOutcome::NotHandled, "ads.example.com.", RecordType::A),
        ChainStep::Done { outcome: sinkhole("ads.example.com."), consulted: 2 }
    );
}

#[test]
fn empty_chain_handles_nothing() {
    let chain = AuthorityChain::new(Vec::new());
    assert_eq!(chain.len(), 0);
    assert!(chain.get(0).is_none());
    assert_eq!(
        chain.dispatch("ads.example.com.", RecordType::A),
        ChainStep::Done { outcome: ChainOutcome::NotHandled, consulted: 0 }
    );
}

#[test]
fn resume_past_the_end_is_the_end() {
    let chain = AuthorityChain::new(vec![StoreHandle::Forward]);
    assert_eq!(
        chain.resume(7, ChainOutcome::NotHandled, "a.example.", RecordType::A),
        ChainStep::Done { outcome: ChainOutcome::NotHandled, consulted: 1 }
    );
    assert_eq!(
        chain.resume(usize::MAX, answer("a.example."), "a.example.", RecordType::A),
        ChainStep::Done { outcome: answer("a.example."), consulted: 1 }
    );
}

#[test]
fn chain_keeps_its_order() {
    let chain = AuthorityChain::new(vec![
        blocklist(""),
        StoreHandle::File,
        StoreHandle::Database,
        StoreHandle::Forward,
        StoreHandle::Recursor,
    ]);
    assert_eq!(chain.len(), 5);
    let kinds: Vec<StoreKind> = (0..5).map(|i| chain.get(i).unwrap().kind()).collect();
    assert_eq!(
        kinds,
        vec![
            StoreKind::Blocklist,
            StoreKind::File,
            StoreKind::Database,
            StoreKind::Forward,
            StoreKind::Recursor
        ]
    );
    assert!(chain.get(5).is_none());
}

#[test]
fn handle_is_built_from_its_configuration() {
    let readable = vec![ListSource {
        path: "root/bl.txt".to_string(),
        contents: Some("ads.example.com\n".to_string()),
    }];
    let unreadable = vec![ListSource { path: "root/bl.txt".to_string(), contents: None }];
    let elements = vec![
        StoreConfigElement::BlockList(BlockListConfig {
            lists: vec!["bl.txt".to_string()],
            wildcard_match: true,
            min_wildcard_depth: 0,
        }),
        StoreConfigElement::File(FileConfig { zone_file_path: "example.zone".to_string() }),
        StoreConfigElement::Sqlite(SqliteConfig {
            zone_file_path: "example.zone".to_string(),
            journal_file_path: "example.jrnl".to_string(),
            allow_update: true,
        }),
        StoreConfigElement::Forward(ForwardConfig { name_servers: Vec::new() }),
        StoreConfigElement::Recursor(RecursiveConfig { roots: "root.zone".to_string() }),
    ];
    let mut handles = Vec::new();
    for element in &elements {
        let handle = StoreHandle::try_from_config(".", ZoneType::Hint, element, &readable).unwrap();
        assert_eq!(handle.kind(), element.kind());
        handles.push(handle);
    }
    let chain = AuthorityChain::new(handles);
    assert_eq!(
        chain.dispatch("ads.example.com", RecordType::A),
        ChainStep::Done { outcome: sinkhole("ads.example.com."), consulted: 1 }
    );
    assert_eq!(chain.dispatch("example.com", RecordType::A), ChainStep::Ask(1));

    let failed = StoreHandle::try_from_config(".", ZoneType::Hint, &elements[0], &unreadable);
    assert!(matches!(failed, Err(LoadError::Unreadable(ref path)) if path == "root/bl.txt"));
    let outside = StoreHandle::try_from_config(".", ZoneType::Hint, &elements[3], &unreadable);
    assert!(matches!(outside, Ok(StoreHandle::Forward)));
}

#[test]
fn lookup_outcome_carries_over() {
    let mut authority = BlockListAuthority::new(".", true, 0);
    authority.add("ads.example.com\n");
    assert_eq!(
        ChainOutcome::of_lookup(authority.lookup("ads.example.com", RecordType::MX)),
        sinkhole("ads.example.com.")
    );
    assert_eq!(
        ChainOutcome::of_lookup(authority.lookup("example.com", RecordType::MX)),
        ChainOutcome::NotHandled
    );
    assert_eq!(
        ChainOutcome::of_lookup(authority.get_nsec_records("example.com")),
        ChainOutcome::Failed(LookupError::UnsupportedCapability(Capability::Nsec))
    );
}

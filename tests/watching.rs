use glue_gun::metadata::Dependency;
use glue_gun::path::LocalPath;
use glue_gun::watch::{
    compute_whitelist, decide_batch, watch_roots, FileEventKind, MyFilter, WatchDecision, WatchEvent, WatchSignal,
};

fn p(s: &str) -> LocalPath {
    LocalPath::parse(s)
}

fn change(path: &str, kind: FileEventKind) -> WatchEvent {
    WatchEvent { paths: vec![p(path)], kinds: vec![kind], signals: vec![] }
}

fn signal(s: WatchSignal) -> WatchEvent {
    WatchEvent { paths: vec![], kinds: vec![], signals: vec![s] }
}

fn setup() -> (Vec<LocalPath>, MyFilter) {
    let whitelist = compute_whitelist(&vec![p("/w/kernel"), p("/w/boot")]);
    let mut filter = MyFilter::new(vec![]);
    filter.add_ignored(p("/w/kernel/target"));
    filter.add_ignored(p("/w/boot/target"));
    (whitelist, filter)
}

#[test]
fn whitelist_entries_per_package() {
    let w: Vec<String> = compute_whitelist(&vec![p("/w/kernel")]).iter().map(|e| e.to_text()).collect();
    assert_eq!(
        w,
        vec![
            "/w/kernel/Cargo.toml",
            "/w/kernel/Cargo.lock",
            "/w/kernel/build.rs",
            "/w/kernel/src",
            "/w/kernel/tests"
        ]
    );
}

#[test]
fn watch_roots_include_dependencies_once() {
    let deps = vec![
        Dependency { name: "util".to_string(), path: p("/w/util") },
        Dependency { name: "util2".to_string(), path: p("/w/util") },
        Dependency { name: "k".to_string(), path: p("/w/kernel") },
    ];
    let roots: Vec<String> = watch_roots(&vec![p("/w/kernel"), p("/w/boot")], &deps).iter().map(|r| r.to_text()).collect();
    assert_eq!(roots, vec!["/w/kernel", "/w/boot", "/w/util"]);
}

#[test]
fn filter_ignores_output_directories() {
    let (_, filter) = setup();
    assert!(!filter.check_event(&vec![p("/w/kernel/target/debug/kernel")]));
    assert!(filter.check_event(&vec![p("/w/kernel/src/main.rs")]));
    assert!(filter.check_event(&vec![p("/w/kernel/targets.json")]));
    let mut again = filter.clone();
    again.add_ignored(p("/w/kernel/target"));
    assert_eq!(again.ignore_files.len(), 2);
}

#[test]
fn change_in_output_directory_is_ignored() {
    let (whitelist, filter) = setup();
    let batch = vec![change("/w/kernel/target/debug/kernel.iso", FileEventKind::Modify)];
    assert_eq!(decide_batch(&batch, &whitelist, &filter), WatchDecision::Wait);
}

#[test]
fn change_to_manifest_rebuilds_once() {
    let (whitelist, filter) = setup();
    let batch = vec![
        change("/w/kernel/Cargo.toml", FileEventKind::Modify),
        change("/w/boot/src/main.rs", FileEventKind::Create),
        change("/w/boot/src/lib.rs", FileEventKind::Remove),
    ];
    assert_eq!(decide_batch(&batch, &whitelist, &filter), WatchDecision::Rebuild);
}

#[test]
fn access_or_unwatched_file_waits() {
    let (whitelist, filter) = setup();
    let batch = vec![
        change("/w/kernel/src/main.rs", FileEventKind::Access),
        change("/w/kernel/README.md", FileEventKind::Modify),
    ];
    assert_eq!(decide_batch(&batch, &whitelist, &filter), WatchDecision::Wait);
    assert_eq!(decide_batch(&vec![], &whitelist, &filter), WatchDecision::Wait);
}

#[test]
fn interrupt_while_idle_stops() {
    let (whitelist, filter) = setup();
    assert_eq!(decide_batch(&vec![signal(WatchSignal::Interrupt)], &whitelist, &filter), WatchDecision::Stop);
    assert_eq!(decide_batch(&vec![signal(WatchSignal::Terminate)], &whitelist, &filter), WatchDecision::Stop);
    assert_eq!(decide_batch(&vec![signal(WatchSignal::Other)], &whitelist, &filter), WatchDecision::Wait);
}

#[test]
fn signal_supersedes_pending_rebuild() {
    let (whitelist, filter) = setup();
    let batch = vec![change("/w/kernel/src/main.rs", FileEventKind::Modify), signal(WatchSignal::Quit)];
    assert_eq!(decide_batch(&batch, &whitelist, &filter), WatchDecision::Stop);
}

#[test]
fn event_with_input_and_output_paths_rebuilds() {
    let (whitelist, filter) = setup();
    let event = WatchEvent {
        paths: vec![p("/w/kernel/target/debug/kernel"), p("/w/kernel/src/main.rs")],
        kinds: vec![FileEventKind::Modify],
        signals: vec![],
    };
    assert!(filter.check_event(&event.paths));
    assert_eq!(decide_batch(&vec![event], &whitelist, &filter), WatchDecision::Rebuild);
    assert!(filter.check_event(&vec![]));
}

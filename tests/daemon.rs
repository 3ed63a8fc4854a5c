use ept_daemon::scanner::{distinct_keys, files_under, group_files, is_listed};
use ept_daemon::{
    Command, Daemon, EptFileNode, HashService, LazyDeleteNode, ListedFile, PackageGroup,
    ScanError, Scanner, UPDATE_INTERVAL,
};

fn s(x: &str) -> String {
    x.to_string()
}

fn node(path: &str, hash: &str, key: &str) -> EptFileNode {
    EptFileNode::new(s(path), s(hash), s(key))
}

fn listed(path: &str, key: &str, digest: Option<&str>) -> ListedFile {
    ListedFile::new(s(path), s(key), digest.map(s))
}

fn summary(groups: &[PackageGroup]) -> Vec<(String, Vec<(String, String)>)> {
    groups
        .iter()
        .map(|g| {
            (
                g.key.clone(),
                g.files.iter().map(|f| (f.path.clone(), f.hash.clone())).collect(),
            )
        })
        .collect()
}

fn pending_paths(d: &Daemon) -> Vec<(String, String)> {
    d.pending().iter().map(|c| (c.path.clone(), c.key.clone())).collect()
}

fn cached(d: &Daemon) -> Vec<(String, String)> {
    d.export().iter().map(|f| (f.path.clone(), f.hash.clone())).collect()
}

/// Lists the given files the way the caller of the daemon does: a digest
/// only for those the cache does not know.
fn listing(d: &Daemon, files: &[(&str, &str, &str)]) -> Vec<ListedFile> {
    files
        .iter()
        .map(|(p, k, h)| {
            let digest = if d.needs_digest(&s(p)) { Some(*h) } else { None };
            listed(p, k, digest)
        })
        .collect()
}

#[test]
fn scenario_lazy_deletion_across_cycles() {
    let mut d = Daemon::new(vec![], s("/pkgs"));
    // Cycle 1: A and B on disk.
    assert!(d.request(1000));
    let ls = listing(&d, &[("/pkgs/A", "A", "h1"), ("/pkgs/B", "B", "h2")]);
    let groups = d.finish(Some(ls), 1000).unwrap();
    assert_eq!(
        summary(&groups),
        vec![
            (s("A"), vec![(s("/pkgs/A"), s("h1"))]),
            (s("B"), vec![(s("/pkgs/B"), s("h2"))]),
        ]
    );
    assert!(pending_paths(&d).is_empty());
    // Cycle 2: B was removed from disk.
    assert!(d.request(1000 + UPDATE_INTERVAL + 1));
    let ls = listing(&d, &[("/pkgs/A", "A", "h1")]);
    let groups = d.finish(Some(ls), 1400).unwrap();
    assert_eq!(summary(&groups), vec![(s("A"), vec![(s("/pkgs/A"), s("h1"))])]);
    assert_eq!(pending_paths(&d), vec![(s("/pkgs/B"), s("B"))]);
    // B is still cached until the next cycle starts.
    assert_eq!(cached(&d).len(), 2);
    // Cycle 3: B is evicted before the scan.
    assert!(d.request(1400 + UPDATE_INTERVAL + 1));
    assert_eq!(cached(&d), vec![(s("/pkgs/A"), s("h1"))]);
    let ls = listing(&d, &[("/pkgs/A", "A", "h1")]);
    d.finish(Some(ls), 1800).unwrap();
    assert_eq!(cached(&d), vec![(s("/pkgs/A"), s("h1"))]);
    assert!(pending_paths(&d).is_empty());
}

#[test]
fn scenario_second_request_within_cooldown_is_dropped() {
    let mut d = Daemon::new(vec![], s("/pkgs"));
    assert!(d.request(10_000));
    assert!(d.is_running());
    d.finish(Some(vec![]), 10_000);
    assert!(!d.is_running());
    assert_eq!(d.last_finish(), 10_000);
    assert!(!d.request(10_010));
    assert!(!d.is_running());
    assert_eq!(d.last_finish(), 10_000);
}

#[test]
fn scenario_failed_scan_keeps_queue_and_advances_clock() {
    let mut d = Daemon::new(vec![node("/pkgs/old", "h0", "old")], s("/pkgs"));
    assert!(d.request(1000));
    d.finish(Some(vec![]), 1000);
    assert_eq!(pending_paths(&d), vec![(s("/pkgs/old"), s("old"))]);
    // The directory is gone: the cycle fails.
    assert!(d.request(2000));
    assert_eq!(d.finish(None, 2005).is_none(), true);
    assert_eq!(pending_paths(&d), vec![(s("/pkgs/old"), s("old"))]);
    assert_eq!(d.last_finish(), 2005);
    assert!(!d.is_running());
    // Within the cooldown nothing starts; after it a cycle can run.
    assert!(!d.request(2005 + UPDATE_INTERVAL));
    assert!(d.request(2005 + UPDATE_INTERVAL + 1));
}

#[test]
fn requests_while_running_are_ignored() {
    let mut d = Daemon::new(vec![], s("/pkgs"));
    assert!(d.request(500));
    assert!(!d.request(501));
    assert!(!d.request(5000));
    assert!(d.is_running());
}

#[test]
fn one_cycle_per_window() {
    let mut d = Daemon::new(vec![], s("/pkgs"));
    let mut started = vec![];
    for t in (1000u64..2000).step_by(100) {
        if d.request(t) {
            started.push(t);
            d.finish(Some(vec![]), t);
        }
    }
    assert_eq!(started, vec![1000, 1400, 1800]);
}

#[test]
fn first_request_at_time_zero_waits_for_cooldown() {
    let mut d = Daemon::new(vec![], s("/pkgs"));
    assert!(!d.request(0));
    assert!(!d.request(UPDATE_INTERVAL));
    assert!(d.request(UPDATE_INTERVAL + 1));
}

#[test]
fn clock_before_last_finish_starts_nothing() {
    let mut d = Daemon::new(vec![], s("/pkgs"));
    assert!(d.request(10_000));
    d.finish(None, 10_000);
    assert!(!d.request(5));
}

#[test]
fn finish_without_running_cycle_does_nothing() {
    let mut d = Daemon::new(vec![], s("/pkgs"));
    assert!(d.finish(Some(vec![listed("/a", "a", Some("h"))]), 77).is_none());
    assert_eq!(d.last_finish(), 0);
    assert!(cached(&d).is_empty());
}

#[test]
fn missing_digest_fails_the_cycle() {
    let mut d = Daemon::new(vec![node("/x", "hx", "x")], s("/pkgs"));
    assert!(d.request(1000));
    d.finish(Some(vec![]), 1000);
    assert!(d.request(2000));
    let r = d.finish(Some(vec![listed("/new", "n", None)]), 2001);
    assert!(r.is_none());
    assert_eq!(pending_paths(&d), vec![(s("/x"), s("x"))]);
    assert_eq!(d.last_finish(), 2001);
}

#[test]
fn handle_recognises_only_the_request_command() {
    let mut d = Daemon::new(vec![], s("/pkgs"));
    assert!(!d.handle(&s("refresh"), 1000));
    assert!(!d.is_running());
    assert!(d.handle(&s("request"), 1000));
    assert!(d.is_running());
    assert!(matches!(Command::parse(&s("request")), Some(Command::Request)));
    assert!(Command::parse(&s("Request")).is_none());
    assert!(Command::parse(&s("")).is_none());
}

#[test]
fn rescan_is_idempotent_and_recomputes_nothing() {
    let mut sc = Scanner::new(HashService::new(vec![]));
    let first = vec![listed("/p/a", "a", Some("ha")), listed("/p/b", "b", Some("hb"))];
    let (g1, st1) = sc.scan_packages(&first).ok().unwrap();
    // The second listing carries different digests: they must be ignored.
    let second = vec![listed("/p/a", "a", Some("zz")), listed("/p/b", "b", None)];
    let (g2, st2) = sc.scan_packages(&second).ok().unwrap();
    assert_eq!(summary(&g1), summary(&g2));
    assert!(st1.is_empty() && st2.is_empty());
    assert_eq!(sc.export().len(), 2);
}

#[test]
fn evicted_entry_is_recomputed_to_same_hash() {
    let mut c = HashService::new(vec![node("/p/a", "ha", "a")]);
    c.remove(&s("/p/a"), &s("a"));
    assert!(!c.contains(&s("/p/a")));
    let h = c.resolve(&listed("/p/a", "a", Some("ha"))).unwrap();
    assert_eq!(h, s("ha"));
    assert_eq!(c.get(&s("/p/a")), Some(s("ha")));
}

#[test]
fn resolve_prefers_cached_hash() {
    let mut c = HashService::new(vec![node("/p/a", "cached", "a")]);
    assert_eq!(c.resolve(&listed("/p/a", "a", Some("fresh"))), Some(s("cached")));
    assert_eq!(c.resolve(&listed("/p/b", "b", Some("hb"))), Some(s("hb")));
    assert_eq!(c.get(&s("/p/b")), Some(s("hb")));
    assert_eq!(c.resolve(&listed("/p/c", "c", None)), None);
    assert!(!c.contains(&s("/p/c")));
}

#[test]
fn remove_needs_matching_key() {
    let mut c = HashService::new(vec![node("/p/a", "ha", "a")]);
    c.remove(&s("/p/a"), &s("other"));
    assert!(c.contains(&s("/p/a")));
    c.remove(&s("/p/zzz"), &s("a"));
    assert_eq!(c.snapshot().len(), 1);
    c.remove(&s("/p/a"), &s("a"));
    assert!(c.snapshot().is_empty());
}

#[test]
fn load_keeps_first_record_per_path() {
    let c = HashService::new(vec![
        node("/p/a", "h1", "a"),
        node("/p/b", "h2", "b"),
        node("/p/a", "h3", "a"),
    ]);
    let snap: Vec<(String, String)> =
        c.snapshot().iter().map(|f| (f.path.clone(), f.hash.clone())).collect();
    assert_eq!(snap, vec![(s("/p/a"), s("h1")), (s("/p/b"), s("h2"))]);
}

#[test]
fn scan_groups_by_key_in_order_of_first_appearance() {
    let mut sc = Scanner::new(HashService::new(vec![]));
    let ls = vec![
        listed("/p/x1", "x", Some("1")),
        listed("/p/y1", "y", Some("2")),
        listed("/p/x2", "x", Some("3")),
    ];
    let (g, _) = sc.scan_packages(&ls).ok().unwrap();
    assert_eq!(
        summary(&g),
        vec![
            (s("x"), vec![(s("/p/x1"), s("1")), (s("/p/x2"), s("3"))]),
            (s("y"), vec![(s("/p/y1"), s("2"))]),
        ]
    );
}

#[test]
fn scan_reports_unlisted_records_as_stale() {
    let mut sc = Scanner::new(HashService::new(vec![
        node("/p/gone", "g", "k1"),
        node("/p/kept", "k", "k2"),
        node("/p/lost", "l", "k3"),
    ]));
    let ls = vec![listed("/p/kept", "k2", None), listed("/p/new", "k4", Some("n"))];
    let (_, stale) = sc.scan_packages(&ls).ok().unwrap();
    let st: Vec<(String, String)> = stale.iter().map(|c| (c.path.clone(), c.key.clone())).collect();
    assert_eq!(st, vec![(s("/p/gone"), s("k1")), (s("/p/lost"), s("k3"))]);
    // Stale records are not evicted by the scan itself.
    assert_eq!(sc.export().len(), 4);
    sc.delete_file(s("/p/gone"), s("k1"));
    assert!(!sc.is_cached(&s("/p/gone")));
}

#[test]
fn scan_with_missing_digest_leaves_cache_alone() {
    let mut sc = Scanner::new(HashService::new(vec![node("/p/a", "ha", "a")]));
    let ls = vec![listed("/p/b", "b", Some("hb")), listed("/p/c", "c", None)];
    assert!(matches!(sc.scan_packages(&ls), Err(ScanError::MissingDigest)));
    assert!(!sc.is_cached(&s("/p/b")));
    assert!(!sc.listing_complete(&ls));
    assert!(sc.listing_complete(&vec![listed("/p/a", "a", None)]));
}

#[test]
fn empty_listing_gives_empty_grouping() {
    let mut sc = Scanner::new(HashService::new(vec![]));
    let (g, st) = sc.scan_packages(&vec![]).ok().unwrap();
    assert!(g.is_empty() && st.is_empty());
}

#[test]
fn grouping_helpers() {
    let nodes = vec![node("/1", "a", "k"), node("/2", "b", "j"), node("/3", "c", "k")];
    assert_eq!(distinct_keys(&nodes), vec![s("k"), s("j")]);
    let ks: Vec<String> = files_under(&nodes, &s("k")).iter().map(|f| f.path.clone()).collect();
    assert_eq!(ks, vec![s("/1"), s("/3")]);
    assert_eq!(group_files(&nodes).len(), 2);
    assert!(group_files(&vec![]).is_empty());
    let ls = vec![listed("/1", "k", None)];
    assert!(is_listed(&ls, &s("/1")));
    assert!(!is_listed(&ls, &s("/2")));
}

#[test]
fn candidate_and_dir_accessors() {
    let c = LazyDeleteNode::new(s("/p"), s("k"));
    let d = c.duplicate();
    assert_eq!((d.path, d.key), (s("/p"), s("k")));
    let dm = Daemon::new(vec![], s("/pkgs"));
    assert_eq!(dm.dir_packages(), s("/pkgs"));
    assert_eq!(ept_daemon::PROTOCOL, "3.0.0");
}

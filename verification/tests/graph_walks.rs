use blaze::cache::ResolutionCache;
use blaze::dependencies::Dependencies;
use blaze::error::ErrorKind;
use blaze::graph::{get_related_dependencies, is_on_path, move_on, open_frame, Request, Walk};
use blaze::install::Resolution;
use blaze::packages::{Entry, PackageMap};

fn item(name: &str, version: &str) -> Entry {
    Entry { name: name.to_string(), version: version.to_string() }
}

fn declared(list: &[(&str, &str)]) -> Dependencies {
    let mut d = Dependencies::default();
    for (name, constraint) in list {
        d.dependencies.insert(name, constraint);
    }
    d
}

fn listing(versions: &[&str]) -> String {
    let members: Vec<String> = versions.iter().map(|v| format!("\"{}\":{{}}", v)).collect();
    let latest = versions.last().copied().unwrap_or("0.0.0");
    format!("{{\"dist-tags\":{{\"latest\":\"{}\"}},\"versions\":{{{}}}}}", latest, members.join(","))
}

fn release(deps: &[(&str, &str)]) -> String {
    let members: Vec<String> = deps.iter().map(|(n, c)| format!("\"{}\":\"{}\"", n, c)).collect();
    format!("{{\"dependencies\":{{{}}}}}", members.join(","))
}

/// A small registry: `a` and `b` both need `l`, at different major numbers;
/// `x` and `y` need each other; `s` needs itself; `leaf` needs nothing.
fn registry(request: &Request) -> String {
    match request {
        Request::Package { name } => match name.as_str() {
            "a" | "b" | "x" | "y" | "s" => listing(&["1.0.0"]),
            "l" => listing(&["1.0.0", "1.5.0", "2.0.0", "2.1.0"]),
            "leaf" => listing(&["1.0.0", "1.2.0", "2.0.0"]),
            "left-pad" => listing(&["1.0.0", "1.0.1", "1.3.0", "2.0.0"]),
            _ => "Not Found".to_string(),
        },
        Request::Release { name, version } => match (name.as_str(), version.as_str()) {
            ("a", "1.0.0") => release(&[("l", "^1.0.0")]),
            ("b", "1.0.0") => release(&[("l", "^2.0.0")]),
            ("x", "1.0.0") => release(&[("y", "^1.0.0")]),
            ("y", "1.0.0") => release(&[("x", "^1.0.0")]),
            ("s", "1.0.0") => release(&[("s", "^1.0.0")]),
            ("l", _) | ("leaf", _) | ("left-pad", _) => "{\"name\":\"it\"}".to_string(),
            _ => "Not Found".to_string(),
        },
    }
}

fn drive(mut r: Resolution, asked: &mut Vec<Request>) -> Resolution {
    let mut rounds = 0;
    while let Some(request) = r.pending() {
        let body = registry(&request);
        asked.push(request);
        r = r.answer(&body);
        rounds += 1;
        assert!(rounds < 100);
    }
    r
}

fn drive_walk(mut w: Walk) -> Walk {
    let mut rounds = 0;
    while let Some(request) = w.pending() {
        w = w.answer(&registry(&request));
        rounds += 1;
        assert!(rounds < 100);
    }
    w
}

#[test]
fn a_single_leaf_resolves_to_one_entry() {
    let mut asked = Vec::new();
    let r = drive(declared(&[("leaf", "^1.0.0")]).download_dependencies(None), &mut asked);
    assert!(r.is_complete());
    assert!(r.failure().is_none());
    assert_eq!(r.resolved().to_entries(), vec![item("leaf", "1.2.0")]);
    assert_eq!(
        asked,
        vec![
            Request::Package { name: "leaf".to_string() },
            Request::Release { name: "leaf".to_string(), version: "1.2.0".to_string() }
        ]
    );
}

#[test]
fn an_empty_manifest_is_complete_at_once() {
    let r = declared(&[]).download_dependencies(None);
    assert!(r.is_complete());
    assert_eq!(r.pending(), None);
    assert_eq!(r.resolved().len(), 0);
}

#[test]
fn a_diamond_leaves_one_entry_for_the_shared_package() {
    let mut asked = Vec::new();
    let r = drive(
        declared(&[("a", "^1.0.0"), ("b", "^1.0.0")]).download_dependencies(None),
        &mut asked,
    );
    assert!(r.is_complete());
    let resolved = r.resolved();
    assert_eq!(
        resolved.to_entries(),
        vec![item("l", "2.1.0"), item("a", "1.0.0"), item("b", "1.0.0")]
    );
    let entries = resolved.to_entries();
    assert_eq!(entries.iter().filter(|e| e.name == "l").count(), 1);
}

#[test]
fn a_diamond_asks_in_depth_first_order() {
    let mut asked = Vec::new();
    drive(declared(&[("a", "^1.0.0"), ("b", "^1.0.0")]).download_dependencies(None), &mut asked);
    assert_eq!(
        asked,
        vec![
            Request::Package { name: "a".to_string() },
            Request::Release { name: "a".to_string(), version: "1.0.0".to_string() },
            Request::Package { name: "l".to_string() },
            Request::Release { name: "l".to_string(), version: "1.5.0".to_string() },
            Request::Package { name: "b".to_string() },
            Request::Release { name: "b".to_string(), version: "1.0.0".to_string() },
            Request::Package { name: "l".to_string() },
            Request::Release { name: "l".to_string(), version: "2.1.0".to_string() },
        ]
    );
}

#[test]
fn a_cycle_ends() {
    let mut asked = Vec::new();
    let r = drive(declared(&[("x", "^1.0.0")]).download_dependencies(None), &mut asked);
    assert!(r.is_complete());
    assert_eq!(r.resolved().to_entries(), vec![item("y", "1.0.0"), item("x", "1.0.0")]);
    assert_eq!(asked.len(), 5);
}

#[test]
fn a_package_that_needs_itself_is_passed_over() {
    let mut asked = Vec::new();
    let r = drive(declared(&[("s", "^1.0.0")]).download_dependencies(None), &mut asked);
    assert!(r.is_complete());
    assert_eq!(r.resolved().to_entries(), vec![item("s", "1.0.0")]);
    assert_eq!(asked.len(), 3);
}

#[test]
fn an_unchanged_manifest_is_served_from_the_cache() {
    let manifest = declared(&[("a", "^1.0.0"), ("b", "^1.0.0")]);
    let mut asked = Vec::new();
    let first = drive(manifest.download_dependencies(None), &mut asked);
    let cache = first.cache().unwrap();
    let again = declared(&[("a", "^1.0.0"), ("b", "^1.0.0")]).download_dependencies(Some(&cache));
    assert!(again.is_complete());
    assert_eq!(again.pending(), None);
    assert!(again.resolved().identical(&first.resolved()));
    assert!(again.resolved().identical(&cache.resolved));
}

#[test]
fn a_changed_manifest_ignores_the_cache() {
    let mut asked = Vec::new();
    let first = drive(declared(&[("a", "^1.0.0")]).download_dependencies(None), &mut asked);
    let cache = first.cache().unwrap();
    let changed = declared(&[("b", "^1.0.0")]);
    let begun = changed.download_dependencies(Some(&cache));
    assert!(!begun.is_complete());
    assert_eq!(begun.resolved().len(), 0);
    assert_eq!(begun.pending(), Some(Request::Package { name: "b".to_string() }));
    let mut asked_again = Vec::new();
    let second = drive(begun, &mut asked_again);
    assert_eq!(second.resolved().to_entries(), vec![item("l", "2.1.0"), item("b", "1.0.0")]);
    assert_eq!(asked_again.len(), 4);
}

#[test]
fn a_cache_is_offered_only_when_complete() {
    let r = declared(&[("a", "^1.0.0")]).download_dependencies(None);
    assert!(r.cache().is_none());
    let r = r.answer(&listing(&["1.0.0"]));
    assert!(r.cache().is_none());
}

#[test]
fn the_cache_records_the_manifest() {
    let mut asked = Vec::new();
    let manifest = declared(&[("leaf", "~2.0.0")]);
    let r = drive(manifest.download_dependencies(None), &mut asked);
    let cache = r.cache().unwrap();
    assert!(cache.manifest.identical(&manifest.dependencies));
    assert_eq!(cache.resolved.to_entries(), vec![item("leaf", "2.0.0")]);
}

#[test]
fn an_unknown_dependency_stops_everything() {
    let mut asked = Vec::new();
    let r = drive(
        declared(&[("leaf", "^1.0.0"), ("ghost", "^1.0.0"), ("a", "^1.0.0")])
            .download_dependencies(None),
        &mut asked,
    );
    assert!(!r.is_complete());
    let e = r.failure().unwrap();
    assert_eq!(e.kind, ErrorKind::Parse);
    assert_eq!(e.detail, "ghost");
    assert_eq!(r.pending(), None);
    assert!(r.cache().is_none());
    assert_eq!(asked.len(), 3);
}

#[test]
fn an_unsatisfied_constraint_stops_everything() {
    let r = declared(&[("leaf", "^7.0.0")]).download_dependencies(None);
    let r = r.answer(&listing(&["1.0.0", "2.0.0"]));
    let e = r.failure().unwrap();
    assert_eq!(e.kind, ErrorKind::Resolution);
    assert_eq!(e.detail, "leaf");
    assert!(!r.is_complete());
}

#[test]
fn a_failure_below_a_dependency_stops_everything() {
    let r = declared(&[("a", "^1.0.0")]).download_dependencies(None);
    let r = r.answer(&listing(&["1.0.0"]));
    let r = r.answer(&release(&[("l", "^9.0.0")]));
    assert_eq!(r.pending(), Some(Request::Package { name: "l".to_string() }));
    let r = r.answer(&listing(&["1.0.0"]));
    let e = r.failure().unwrap();
    assert_eq!(e.kind, ErrorKind::Resolution);
    assert_eq!(e.detail, "l");
    assert_eq!(r.pending(), None);
}

#[test]
fn a_failed_resolution_takes_no_more_answers() {
    let r = declared(&[("leaf", "^7.0.0")]).download_dependencies(None);
    let r = r.answer("{}");
    let first = r.failure().unwrap();
    let r = r.answer(&listing(&["7.0.0"]));
    assert_eq!(r.failure().unwrap(), first);
    assert_eq!(r.resolved().len(), 0);
}

#[test]
fn a_request_that_cannot_be_made_is_a_network_failure() {
    let r = declared(&[("leaf", "^1.0.0")]).download_dependencies(None);
    let r = r.refuse("connection reset");
    let e = r.failure().unwrap();
    assert_eq!(e.kind, ErrorKind::Network);
    assert_eq!(e.detail, "connection reset");
    assert_eq!(r.pending(), None);
}

#[test]
fn a_complete_resolution_is_not_refused() {
    let r = declared(&[]).download_dependencies(None).refuse("late");
    assert!(r.is_complete());
    assert!(r.failure().is_none());
}

#[test]
fn a_walk_below_a_root_finds_its_closure() {
    let w = drive_walk(get_related_dependencies(
        "a".to_string(),
        "1.0.0".to_string(),
        &declared(&[("a", "^1.0.0")]),
        None,
    ));
    assert!(w.is_over());
    assert_eq!(w.outcome().unwrap().unwrap().to_entries(), vec![item("l", "1.5.0")]);
}

#[test]
fn a_walk_begins_with_the_manifest_of_its_root() {
    let w = get_related_dependencies("a".to_string(), "1.0.0".to_string(), &declared(&[]), None);
    assert!(!w.is_over());
    assert!(w.outcome().is_none());
    assert_eq!(
        w.pending(),
        Some(Request::Release { name: "a".to_string(), version: "1.0.0".to_string() })
    );
}

#[test]
fn a_walk_with_a_valid_cache_is_over_at_once() {
    let manifest = declared(&[("a", "^1.0.0")]);
    let mut set = PackageMap::new();
    set.insert("a", "1.0.0");
    set.insert("l", "1.5.0");
    let cache = ResolutionCache::record(&manifest, &set);
    let w = get_related_dependencies("a".to_string(), "1.0.0".to_string(), &manifest, Some(&cache));
    assert!(w.is_over());
    assert_eq!(w.pending(), None);
    assert!(w.outcome().unwrap().unwrap().identical(&set));
}

#[test]
fn a_walk_with_a_stale_cache_starts_at_the_root() {
    let cache = ResolutionCache::record(&declared(&[("a", "^1.0.0")]), &PackageMap::new());
    let w = get_related_dependencies(
        "a".to_string(),
        "1.0.0".to_string(),
        &declared(&[("a", "^2.0.0")]),
        Some(&cache),
    );
    assert!(!w.is_over());
    assert!(w.pending().is_some());
}

#[test]
fn a_walk_that_is_refused_ends_with_a_network_failure() {
    let w = get_related_dependencies("a".to_string(), "1.0.0".to_string(), &declared(&[]), None);
    let w = w.refuse("timed out");
    assert!(w.is_over());
    let e = w.outcome().unwrap().unwrap_err();
    assert_eq!(e.kind, ErrorKind::Network);
    assert_eq!(e.detail, "timed out");
    let w = w.answer("{}");
    assert_eq!(w.outcome().unwrap().unwrap_err().kind, ErrorKind::Network);
}

#[test]
fn children_override_each_other_in_order() {
    let w = get_related_dependencies("top".to_string(), "1.0.0".to_string(), &declared(&[]), None);
    let w = w.answer(&release(&[("a", "^1.0.0"), ("l", "^1.0.0")]));
    assert_eq!(w.pending(), Some(Request::Package { name: "a".to_string() }));
    let w = drive_walk(w);
    assert_eq!(
        w.outcome().unwrap().unwrap().to_entries(),
        vec![item("a", "1.0.0"), item("l", "1.5.0")]
    );
}

#[test]
fn move_on_leaves_a_waiting_path_alone() {
    let (path, found) = move_on(vec![open_frame("a", "1.0.0")]);
    assert!(found.is_none());
    assert_eq!(path.len(), 1);
    assert_eq!(path[0].name, "a");
    assert!(!path[0].declared);
    let (none, nothing) = move_on(Vec::new());
    assert!(none.is_empty());
    assert!(nothing.is_none());
}

#[test]
fn move_on_closes_a_finished_root() {
    let mut root = open_frame("a", "1.0.0");
    root.declared = true;
    root.found.insert("b", "1.0.0");
    let (path, found) = move_on(vec![root]);
    assert!(path.is_empty());
    assert_eq!(found.unwrap().to_entries(), vec![item("b", "1.0.0")]);
}

#[test]
fn move_on_opens_the_next_child() {
    let mut root = open_frame("a", "1.0.0");
    root.declared = true;
    root.children = vec![item("b", "1.1.0"), item("a", "1.0.0"), item("c", "0.1.0")];
    root.settled = 3;
    let (path, found) = move_on(vec![root]);
    assert!(found.is_none());
    assert_eq!(path.len(), 2);
    assert_eq!(path[0].expanded, 1);
    assert_eq!(path[1].name, "b");
    assert_eq!(path[1].version, "1.1.0");
    assert!(is_on_path(&path, "b"));
    assert!(!is_on_path(&path, "c"));
}

#[test]
fn move_on_merges_a_closed_child_into_its_parent() {
    let mut root = open_frame("a", "1.0.0");
    root.declared = true;
    root.children = vec![item("b", "1.1.0"), item("a", "1.0.0")];
    root.settled = 2;
    root.expanded = 1;
    root.found.insert("b", "1.1.0");
    root.found.insert("a", "1.0.0");
    let mut child = open_frame("b", "1.1.0");
    child.declared = true;
    child.found.insert("a", "0.9.0");
    child.found.insert("z", "3.0.0");
    let (path, found) = move_on(vec![root, child]);
    assert!(path.is_empty());
    assert_eq!(
        found.unwrap().to_entries(),
        vec![item("b", "1.1.0"), item("a", "0.9.0"), item("z", "3.0.0")]
    );
}

#[test]
fn a_walk_takes_declared_children_as_plain_values() {
    let w = get_related_dependencies("top".to_string(), "1.0.0".to_string(), &declared(&[]), None);
    let w = w.declare(Ok(vec![item("b", "^1.0.0"), item("c", "~2.0.0")]));
    assert_eq!(w.pending(), Some(Request::Package { name: "b".to_string() }));
    let w = w.settle(Ok("1.4.0".to_string()));
    assert_eq!(w.pending(), Some(Request::Package { name: "c".to_string() }));
    let w = w.settle(Ok("2.0.9".to_string()));
    assert_eq!(
        w.pending(),
        Some(Request::Release { name: "b".to_string(), version: "1.4.0".to_string() })
    );
    let w = w.declare(Ok(Vec::new()));
    assert_eq!(
        w.pending(),
        Some(Request::Release { name: "c".to_string(), version: "2.0.9".to_string() })
    );
    let w = w.declare(Ok(vec![item("b", "^1.0.0")]));
    let w = w.settle(Ok("1.9.0".to_string()));
    let w = w.declare(Ok(Vec::new()));
    assert!(w.is_over());
    assert_eq!(
        w.outcome().unwrap().unwrap().to_entries(),
        vec![item("b", "1.9.0"), item("c", "2.0.9")]
    );
}

#[test]
fn a_walk_takes_only_what_it_waits_for() {
    let w = get_related_dependencies("top".to_string(), "1.0.0".to_string(), &declared(&[]), None);
    let w = w.settle(Ok("1.0.0".to_string()));
    assert_eq!(
        w.pending(),
        Some(Request::Release { name: "top".to_string(), version: "1.0.0".to_string() })
    );
    let w = w.declare(Ok(vec![item("b", "^1.0.0")]));
    let w = w.declare(Ok(Vec::new()));
    assert_eq!(w.pending(), Some(Request::Package { name: "b".to_string() }));
}

#[test]
fn a_walk_ends_with_the_failure_it_is_given() {
    let w = get_related_dependencies("top".to_string(), "1.0.0".to_string(), &declared(&[]), None);
    let w = w.declare(Err(blaze::error::Error::parse("top")));
    assert!(w.is_over());
    assert_eq!(w.outcome().unwrap().unwrap_err(), blaze::error::Error::parse("top"));
    let v = get_related_dependencies("top".to_string(), "1.0.0".to_string(), &declared(&[]), None);
    let v = v.declare(Ok(vec![item("b", "^1.0.0")]));
    let v = v.settle(Err(blaze::error::Error::resolution("b")));
    assert_eq!(v.outcome().unwrap().unwrap_err(), blaze::error::Error::resolution("b"));
    assert_eq!(v.pending(), None);
}

#[test]
fn a_resolution_takes_plain_values_too() {
    let r = declared(&[("a", "^1.0.0"), ("z", "*")]).download_dependencies(None);
    let r = r.declare(Ok(Vec::new()));
    assert_eq!(r.pending(), Some(Request::Package { name: "a".to_string() }));
    let r = r.settle(Ok("1.1.0".to_string()));
    assert_eq!(
        r.pending(),
        Some(Request::Release { name: "a".to_string(), version: "1.1.0".to_string() })
    );
    let r = r.declare(Ok(vec![item("z", "^0.1.0")]));
    let r = r.settle(Ok("0.1.5".to_string()));
    let r = r.declare(Ok(Vec::new()));
    assert_eq!(r.resolved().to_entries(), vec![item("z", "0.1.5"), item("a", "1.1.0")]);
    assert_eq!(r.pending(), Some(Request::Package { name: "z".to_string() }));
    let r = r.settle(Ok("3.0.0".to_string()));
    let r = r.declare(Ok(Vec::new()));
    assert!(r.is_complete());
    assert_eq!(r.resolved().to_entries(), vec![item("z", "3.0.0"), item("a", "1.1.0")]);
}

#[test]
fn a_resolution_fails_with_the_failure_it_is_given() {
    let r = declared(&[("a", "^1.0.0")]).download_dependencies(None);
    let r = r.settle(Err(blaze::error::Error::resolution("a")));
    assert_eq!(r.failure(), Some(blaze::error::Error::resolution("a")));
    let r = r.settle(Ok("1.0.0".to_string()));
    assert_eq!(r.failure(), Some(blaze::error::Error::resolution("a")));
    assert_eq!(r.pending(), None);
}

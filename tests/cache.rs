use verco::action::{ActionKind, ActionResult, ResultCache};

#[test]
fn stored_result_reads_back_identical() {
    let mut cache = ResultCache::new();
    cache.set(ActionKind::Status, ActionResult::from_ok("x".to_string()));
    let r = cache.get(ActionKind::Status);
    assert!(r.success);
    assert_eq!(r.output.as_bytes(), b"x");
    assert_eq!(cache.get(ActionKind::Log).output, "");
}

#[test]
fn delivered_result_replaces_cached_one() {
    let mut cache = ResultCache::new();
    assert!(cache.try_begin(ActionKind::Fetch));
    cache.finish(ActionKind::Fetch, ActionResult::from_err("no remote".to_string()));
    assert!(!cache.is_running(ActionKind::Fetch));
    let r = cache.get(ActionKind::Fetch);
    assert!(!r.success);
    assert_eq!(r.output, "no remote");
    cache.finish(ActionKind::Fetch, ActionResult::from_ok("done".to_string()));
    assert_eq!(cache.get(ActionKind::Fetch).output, "done");
}

#[test]
fn one_worker_per_kind() {
    let mut cache = ResultCache::new();
    assert!(cache.try_begin(ActionKind::Pull));
    assert!(cache.is_running(ActionKind::Pull));
    assert!(!cache.try_begin(ActionKind::Pull));
    assert!(cache.try_begin(ActionKind::Push));
    cache.finish(ActionKind::Pull, ActionResult::from_ok(String::new()));
    assert!(!cache.is_running(ActionKind::Pull));
    assert!(cache.is_running(ActionKind::Push));
    assert!(cache.try_begin(ActionKind::Pull));
}

#[test]
fn result_from_backend_outcome() {
    let ok = ActionResult::from_result(Ok("fine".to_string()));
    assert!(ok.success);
    assert_eq!(ok.output, "fine");
    let err = ActionResult::from_result(Err("bad".to_string()));
    assert!(!err.success);
    assert_eq!(err.output, "bad");
}

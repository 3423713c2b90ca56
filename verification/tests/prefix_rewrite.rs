use routectl_router::dispatch::DispatchMeta;
use routectl_router::prefix_rewrite::fingerprint_prefix;
use routectl_router::prefix_rewrite::fingerprint_prefix_at;
use routectl_router::prefix_rewrite::fingerprint_text;
use routectl_router::prefix_rewrite::first_observation;
use routectl_router::prefix_rewrite::fnv1a_hash;
use routectl_router::prefix_rewrite::observe_prefix_epoch;
use routectl_router::prefix_rewrite::old_region_of;
use routectl_router::prefix_rewrite::stamp_observation;
use routectl_router::prefix_rewrite::EpochEvent;
use routectl_router::prefix_rewrite::EpochObservation;
use routectl_router::prefix_rewrite::PrefixRewriteStore;
use routectl_router::prefix_rewrite::RewriteWarning;
use routectl_router::prefix_rewrite::PREFIX_REWRITE_CAPACITY;
use routectl_router::request::ChatRequest;

fn req_with(texts: &[&str]) -> ChatRequest {
    let mut req = ChatRequest::for_model("opus");
    req.messages = texts.iter().map(|t| t.to_string()).collect();
    req.system = Some("You are helpful.".to_string());
    req
}

fn keyed(texts: &[&str]) -> ChatRequest {
    let mut req = ChatRequest::for_model("chain");
    req.messages = texts.iter().map(|t| t.to_string()).collect();
    req.routectl_internal.inbound_session_key = Some("sess-1".to_string());
    req
}

fn event_code(
    store: &mut PrefixRewriteStore,
    warned: &mut bool,
    req: &ChatRequest,
) -> (Option<i64>, Option<RewriteWarning>) {
    let mut meta = DispatchMeta::for_alias(req.model.as_str());
    let warning = observe_prefix_epoch(store, warned, req, &mut meta);
    (meta.prefix_epoch_event, warning)
}

#[test]
fn first_observation_records_baseline_without_classifying() {
    let mut store = PrefixRewriteStore::new();
    let req = req_with(&["a", "b", "c"]);

    let out = store.observe("sess-1", &req);

    assert_eq!(out.event, None);
    assert_eq!(out.epoch, 0);
    assert_eq!(out.prev_prefix_len, None);
    assert_eq!(out.prefix_len, 2, "newest turn is excluded from the prefix");
    assert_eq!(store.len(), 1);
    assert!(!store.is_empty());
}

#[test]
fn unchanged_prefix_is_stable() {
    let mut store = PrefixRewriteStore::new();
    let req = req_with(&["a", "b", "c"]);
    store.observe("sess-1", &req);

    let out = store.observe("sess-1", &req);

    assert_eq!(out.event, Some(EpochEvent::Stable));
    assert_eq!(out.epoch, 0);
    assert_eq!(out.compactions, 0);
}

#[test]
fn pure_append_is_stable_and_advances_the_baseline() {
    let mut store = PrefixRewriteStore::new();
    store.observe("sess-1", &req_with(&["a", "b"]));

    let first = store.observe("sess-1", &req_with(&["a", "b", "c"]));
    let second = store.observe("sess-1", &req_with(&["a", "b", "c", "d"]));

    assert_eq!(first.event, Some(EpochEvent::Stable));
    assert_eq!(first.prev_prefix_len, Some(1));
    assert_eq!(first.prefix_len, 2);
    assert_eq!(second.event, Some(EpochEvent::Stable));
    assert_eq!(
        second.prev_prefix_len,
        Some(2),
        "a Stable turn must advance the baseline to the longer prefix"
    );
    assert_eq!(second.epoch, 0);
}

#[test]
fn rewrite_within_an_epoch_reseeds_and_increments_the_epoch() {
    let mut store = PrefixRewriteStore::new();
    store.observe("sess-1", &req_with(&["a", "b", "c"]));

    let rewritten = store.observe("sess-1", &req_with(&["A", "b", "c"]));
    let after = store.observe("sess-1", &req_with(&["A", "b", "c", "d"]));

    assert_eq!(rewritten.event, Some(EpochEvent::Rewritten));
    assert_eq!(rewritten.epoch, 1);
    assert_eq!(rewritten.compactions, 0);
    assert_eq!(after.event, Some(EpochEvent::Stable));
    assert_eq!(after.epoch, 1, "epoch persists across a stable turn");
}

#[test]
fn each_rewrite_advances_the_epoch() {
    let mut store = PrefixRewriteStore::new();
    store.observe("sess-1", &req_with(&["a", "b", "c"]));

    let first = store.observe("sess-1", &req_with(&["A", "b", "c"]));
    let second = store.observe("sess-1", &req_with(&["B", "b", "c"]));

    assert_eq!(first.epoch, 1);
    assert_eq!(second.event, Some(EpochEvent::Rewritten));
    assert_eq!(second.epoch, 2);
}

#[test]
fn shortened_prefix_is_a_compaction_reseed_not_a_rewrite() {
    let mut store = PrefixRewriteStore::new();
    store.observe("sess-1", &req_with(&["a", "b", "c", "d", "e"]));

    let out = store.observe("sess-1", &req_with(&["summary", "e"]));

    assert_eq!(
        out.event,
        Some(EpochEvent::Reseeded),
        "compaction must never be classified as a rewrite"
    );
    assert_eq!(
        out.epoch, 0,
        "a compaction reseed does not advance the epoch"
    );
    assert_eq!(out.compactions, 1);
    assert_eq!(out.prev_prefix_len, Some(4));
    assert_eq!(out.prefix_len, 1);
}

#[test]
fn compaction_reseeds_the_baseline_to_the_shorter_prefix() {
    let mut store = PrefixRewriteStore::new();
    store.observe("sess-1", &req_with(&["a", "b", "c", "d", "e"]));
    store.observe("sess-1", &req_with(&["summary", "e"]));

    let out = store.observe("sess-1", &req_with(&["summary", "e", "f"]));

    assert_eq!(out.event, Some(EpochEvent::Stable));
    assert_eq!(out.compactions, 1);
}

#[test]
fn repeated_compactions_saturate_the_counter_upward() {
    let mut store = PrefixRewriteStore::new();
    store.observe("sess-1", &req_with(&["a", "b", "c", "d"]));

    let first = store.observe("sess-1", &req_with(&["a", "b", "c"]));
    let second = store.observe("sess-1", &req_with(&["a", "b"]));

    assert_eq!(first.compactions, 1);
    assert_eq!(second.compactions, 2);
}

#[test]
fn advisory_codes_match_the_column_contract() {
    assert_eq!(EpochEvent::Stable.code(), 0);
    assert_eq!(EpochEvent::Rewritten.code(), 1);
    assert_eq!(EpochEvent::Reseeded.code(), 2);
}

#[test]
fn fingerprint_excludes_the_newest_turn() {
    let a = req_with(&["a", "b", "c"]);
    let b = req_with(&["a", "b", "ZZZ"]);

    let (len_a, fp_a) = fingerprint_prefix(&a);
    let (len_b, fp_b) = fingerprint_prefix(&b);

    assert_eq!(len_a, len_b);
    assert_eq!(fp_a, fp_b);
}

#[test]
fn fingerprint_covers_system_and_tools() {
    let base = req_with(&["a", "b"]);
    let mut other_system = req_with(&["a", "b"]);
    other_system.system = Some("You are terse.".to_string());
    let mut with_tools = req_with(&["a", "b"]);
    with_tools.tools =
        Some("[{\"name\":\"grep\",\"input_schema\":{\"type\":\"object\"}}]".to_string());

    let (_, fp_base) = fingerprint_prefix(&base);
    let (_, fp_system) = fingerprint_prefix(&other_system);
    let (_, fp_tools) = fingerprint_prefix(&with_tools);

    assert_ne!(fp_base, fp_system);
    assert_ne!(fp_base, fp_tools);
}

#[test]
fn system_only_request_has_an_empty_message_prefix() {
    let single = req_with(&["a"]);
    let empty = req_with(&[]);

    let (len_single, fp_single) = fingerprint_prefix(&single);
    let (len_empty, fp_empty) = fingerprint_prefix(&empty);

    assert_eq!(len_single, 0);
    assert_eq!(len_empty, 0);
    assert_eq!(
        fp_single, fp_empty,
        "with the newest turn excluded, a one-message request covers system + tools only"
    );
}

#[test]
fn sessions_are_independent() {
    let mut store = PrefixRewriteStore::new();
    store.observe("sess-1", &req_with(&["a", "b", "c"]));
    store.observe("sess-2", &req_with(&["a", "b", "c"]));

    let one = store.observe("sess-1", &req_with(&["A", "b", "c"]));
    let two = store.observe("sess-2", &req_with(&["a", "b", "c"]));

    assert_eq!(one.event, Some(EpochEvent::Rewritten));
    assert_eq!(two.event, Some(EpochEvent::Stable));
    assert_eq!(two.epoch, 0);
    assert_eq!(store.len(), 2);
}

#[test]
fn store_evicts_the_least_recently_used_session_at_capacity() {
    let mut store = PrefixRewriteStore::new();
    let req = req_with(&["a", "b"]);
    for i in 0..PREFIX_REWRITE_CAPACITY {
        store.observe(&format!("sess-{i}"), &req);
    }

    store.observe("sess-overflow", &req);

    assert_eq!(store.len(), PREFIX_REWRITE_CAPACITY);
    let evicted = store.observe("sess-0", &req);
    assert_eq!(
        evicted.event, None,
        "the least recently used session was evicted, so it is first-seen again"
    );
}

#[test]
fn session_reuse_after_eviction_starts_from_a_fresh_baseline() {
    let mut store = PrefixRewriteStore::new();
    store.observe("sess-1", &req_with(&["a", "b", "c"]));
    let rewritten = store.observe("sess-1", &req_with(&["A", "b", "c"]));
    assert_eq!(rewritten.epoch, 1);
    let filler = req_with(&["x", "y"]);
    for i in 0..PREFIX_REWRITE_CAPACITY {
        store.observe(&format!("filler-{i}"), &filler);
    }

    let reused = store.observe("sess-1", &req_with(&["A", "b", "c"]));
    let follow_up = store.observe("sess-1", &req_with(&["A", "b", "c", "d"]));

    assert_eq!(reused.event, None);
    assert_eq!(reused.epoch, 0, "eviction resets the tracked epoch");
    assert_eq!(follow_up.event, Some(EpochEvent::Stable));
}

#[test]
fn recent_use_protects_a_session_from_eviction() {
    let mut store = PrefixRewriteStore::new();
    let req = req_with(&["a", "b"]);
    store.observe("sess-keep", &req);

    for i in 0..PREFIX_REWRITE_CAPACITY {
        store.observe(&format!("sess-{i}"), &req);
        store.observe("sess-keep", &req);
    }
    let kept = store.observe("sess-keep", &req);

    assert_eq!(kept.event, Some(EpochEvent::Stable));
    assert_eq!(store.len(), PREFIX_REWRITE_CAPACITY);
}

#[test]
fn hashes_match_the_published_vectors() {
    assert_eq!(fnv1a_hash(b""), 0xcbf29ce484222325);
    assert_eq!(fnv1a_hash(b"a"), 0xaf63dc4c8601ec8c);
    assert_eq!(fnv1a_hash(b"foobar"), 0x85944171f73967e8);
    assert_eq!(fingerprint_text("foobar"), 0x85944171f73967e8);
}

#[test]
fn the_fingerprint_is_that_of_the_json_text() {
    let req = req_with(&["a", "say \"b\"", "c"]);

    assert_eq!(
        fingerprint_prefix(&req),
        (2, fnv1a_hash(br#"["You are helpful.",null,["a","say \"b\""]]"#))
    );
    assert_eq!(
        fingerprint_prefix_at(&req, 1),
        fnv1a_hash(br#"["You are helpful.",null,["a"]]"#)
    );
    assert_eq!(
        fingerprint_prefix_at(&req, 9),
        fnv1a_hash(br#"["You are helpful.",null,["a","say \"b\"","c"]]"#)
    );
}

#[test]
fn a_length_past_the_end_covers_all_messages() {
    let req = req_with(&["a", "b"]);

    assert_eq!(fingerprint_prefix_at(&req, 2), fingerprint_prefix_at(&req, usize::MAX));
    assert_ne!(fingerprint_prefix_at(&req, 1), fingerprint_prefix_at(&req, 2));
}

#[test]
fn the_baseline_is_the_last_turn_whatever_it_was() {
    let mut store = PrefixRewriteStore::default();
    assert_eq!(store.baseline_of("sess-1"), None);
    for texts in [&["a", "b", "c"][..], &["A", "b", "c"], &["s", "c"], &["s", "c", "d"]] {
        let req = req_with(texts);
        store.observe("sess-1", &req);
        assert_eq!(store.baseline_of("sess-1"), Some(fingerprint_prefix(&req)));
        assert_eq!(store.observe("sess-1", &req).event, Some(EpochEvent::Stable));
    }
}

#[test]
fn an_old_region_is_fingerprinted_where_the_turn_is_no_shorter() {
    let req = req_with(&["a", "b", "c"]);

    assert_eq!(old_region_of(&req, 2, 1), Some(fingerprint_prefix_at(&req, 1)));
    assert_eq!(old_region_of(&req, 2, 2), Some(fingerprint_prefix(&req).1));
    assert_eq!(old_region_of(&req, 2, 3), None);
    let first = first_observation(2);
    assert_eq!((first.event, first.epoch, first.compactions), (None, 0, 0));
    assert_eq!((first.prev_prefix_len, first.prefix_len), (None, 2));
}

#[test]
fn keys_come_least_recently_used_first() {
    let mut store = PrefixRewriteStore::new();
    let req = req_with(&["a", "b"]);
    for key in ["A", "B", "C", "A"] {
        store.observe(key, &req);
    }

    assert_eq!(store.keys_lru_first(), vec!["B", "C", "A"]);
    let _ = store.baseline_of("B");
    assert_eq!(store.keys_lru_first(), vec!["B", "C", "A"], "a look moves nothing");
}

#[test]
fn a_commit_against_a_moved_baseline_reports_nothing() {
    let mut store = PrefixRewriteStore::new();
    assert_eq!(store.baseline_or_seed("s", 2, 11), None);
    assert_eq!(store.baseline_or_seed("s", 3, 12), Some((2, 11)));
    assert_eq!(store.commit("s", (2, 99), 3, 12, Some(11)), None, "another fingerprint");
    assert_eq!(store.commit("t", (2, 11), 3, 12, Some(11)), None, "another session");
    assert_eq!(store.baseline_of("s"), Some((2, 11)));

    let done = store.commit("s", (2, 11), 3, 12, Some(11)).unwrap();
    assert_eq!(done.event, Some(EpochEvent::Stable));
    assert_eq!(store.baseline_of("s"), Some((3, 12)));
    let rewritten = store.commit("s", (3, 12), 3, 13, Some(13)).unwrap();
    assert_eq!((rewritten.event, rewritten.epoch), (Some(EpochEvent::Rewritten), 1));
    let shorter = store.commit("s", (3, 13), 1, 14, None).unwrap();
    assert_eq!(shorter.event, Some(EpochEvent::Reseeded));
    assert_eq!((shorter.epoch, shorter.compactions), (1, 1));
    assert_eq!(shorter.prev_prefix_len, Some(3));
}

#[test]
fn first_request_for_a_session_records_a_baseline_without_classifying() {
    let mut store = PrefixRewriteStore::new();
    let mut warned = false;

    let (event, warning) = event_code(&mut store, &mut warned, &keyed(&["a", "b", "c"]));

    assert_eq!(event, None);
    assert_eq!(warning, None);
    assert_eq!(store.len(), 1);
}

#[test]
fn a_pure_append_turn_stamps_stable() {
    let mut store = PrefixRewriteStore::new();
    let mut warned = false;
    event_code(&mut store, &mut warned, &keyed(&["a", "b"]));

    let (event, warning) = event_code(&mut store, &mut warned, &keyed(&["a", "b", "c"]));

    assert_eq!(event, Some(0));
    assert_eq!(warning, None);
    assert!(!warned);
}

#[test]
fn a_request_without_a_session_key_records_no_state_and_no_warn() {
    let mut store = PrefixRewriteStore::new();
    let mut warned = false;

    for texts in [["a", "b", "c"], ["A", "b", "c"]] {
        let (event, warning) = event_code(&mut store, &mut warned, &req_with(&texts));
        assert_eq!(event, None);
        assert_eq!(warning, None);
    }
    assert!(store.is_empty());
    assert!(!warned);
}

#[test]
fn repeated_rewrites_warn_exactly_once_per_process_but_keep_stamping_the_event() {
    let mut store = PrefixRewriteStore::new();
    let mut warned = false;
    event_code(&mut store, &mut warned, &keyed(&["a", "b", "c"]));

    let first = event_code(&mut store, &mut warned, &keyed(&["A", "b", "c"]));
    let second = event_code(&mut store, &mut warned, &keyed(&["B", "b", "c"]));

    let warning = RewriteWarning { previous_prefix_len: 2, prefix_len: 2, epoch: 1 };
    assert_eq!(first, (Some(1), Some(warning)));
    assert_eq!(second, (Some(1), None));
    assert!(warned);
}

#[test]
fn a_shortening_turn_reseeds_with_no_warn() {
    let mut store = PrefixRewriteStore::new();
    let mut warned = false;
    event_code(&mut store, &mut warned, &keyed(&["a", "b", "c", "d", "e"]));

    let shorter = event_code(&mut store, &mut warned, &keyed(&["summary", "e"]));

    assert_eq!(shorter, (Some(2), None));
    assert!(!warned);
}

#[test]
fn stamping_an_unclassified_turn_leaves_the_metadata_alone() {
    let unclassified = EpochObservation {
        event: None,
        epoch: 0,
        compactions: 0,
        prev_prefix_len: None,
        prefix_len: 3,
    };
    let mut meta = DispatchMeta::for_alias("chain");
    meta.prefix_epoch_event = Some(7);
    let mut warned = false;

    assert_eq!(stamp_observation(&unclassified, &mut warned, &mut meta), None);
    assert_eq!(meta.prefix_epoch_event, Some(7));
    assert!(!warned);
}

#[test]
fn the_epoch_counts_every_rewrite() {
    let mut store = PrefixRewriteStore::new();
    let mut texts: Vec<String> = (0..4).map(|i| i.to_string()).collect();
    let mut req = req_with(&[]);
    req.messages = texts.clone();
    store.observe("s", &req);
    for turn in 0..5u64 {
        texts[0] = format!("changed {turn}");
        req.messages = texts.clone();
        assert_eq!(store.observe("s", &req).epoch, turn + 1);
    }
}

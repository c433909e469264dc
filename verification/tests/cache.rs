use lambda_scheduler::cache::{CacheError, Liveness, RequestCache};
use lambda_scheduler::request::{InvokeRequest, RequestMetadata};

fn request(name: &str, responder: u32) -> InvokeRequest<u32> {
    InvokeRequest {
        function_name: name.to_string(),
        payload: vec![responder as u8],
        metadata: RequestMetadata { deadline_ms: 1_000, trace_id: format!("trace-{responder}") },
        responder,
    }
}

#[test]
fn first_upsert_yields_spawn_directive() {
    let mut cache: RequestCache<u32> = RequestCache::new();
    assert_eq!(cache.liveness("hello"), Liveness::NotStarted);
    assert_eq!(cache.upsert(request("hello", 1)), Ok(Some(("hello".to_string(), 0))));
    assert_eq!(cache.liveness("hello"), Liveness::Starting);
    assert_eq!(cache.api_id("hello"), Some(0));
    assert_eq!(cache.len(), 1);
}

#[test]
fn later_upserts_only_enqueue() {
    let mut cache: RequestCache<u32> = RequestCache::new();
    assert!(matches!(cache.upsert(request("hello", 1)), Ok(Some(_))));
    for responder in 2..20 {
        assert_eq!(cache.upsert(request("hello", responder)), Ok(None));
    }
    assert_eq!(cache.queue_len("hello"), 19);
    assert_eq!(cache.len(), 1);
}

#[test]
fn upserts_while_running_only_enqueue() {
    let mut cache: RequestCache<u32> = RequestCache::new();
    assert!(matches!(cache.upsert(request("hello", 1)), Ok(Some(_))));
    assert!(cache.mark_running("hello"));
    assert_eq!(cache.liveness("hello"), Liveness::Running);
    assert_eq!(cache.upsert(request("hello", 2)), Ok(None));
    assert_eq!(cache.liveness("hello"), Liveness::Running);
    assert_eq!(cache.queue_len("hello"), 2);
}

#[test]
fn mark_running_of_absent_function_changes_nothing() {
    let mut cache: RequestCache<u32> = RequestCache::new();
    assert!(!cache.mark_running("hello"));
    assert_eq!(cache.liveness("hello"), Liveness::NotStarted);
    assert_eq!(cache.len(), 0);
}

#[test]
fn three_requests_before_start_give_one_directive_and_keep_order() {
    let mut cache: RequestCache<u32> = RequestCache::new();
    let first = cache.upsert(request("hello", 1));
    let second = cache.upsert(request("hello", 2));
    let third = cache.upsert(request("hello", 3));
    assert_eq!(first, Ok(Some(("hello".to_string(), 0))));
    assert_eq!(second, Ok(None));
    assert_eq!(third, Ok(None));
    assert_eq!(cache.queue_len("hello"), 3);
    assert_eq!(cache.queued("hello", 0), Some(&request("hello", 1)));
    assert_eq!(cache.queued("hello", 1), Some(&request("hello", 2)));
    assert_eq!(cache.queued("hello", 2), Some(&request("hello", 3)));
    assert_eq!(cache.queued("hello", 3), None);
}

#[test]
fn pop_hands_requests_out_oldest_first() {
    let mut cache: RequestCache<u32> = RequestCache::new();
    for responder in 1..=3 {
        let _ = cache.upsert(request("hello", responder));
    }
    let _ = cache.upsert(request("other", 9));
    assert_eq!(cache.pop("hello"), Some(request("hello", 1)));
    assert_eq!(cache.pop("hello"), Some(request("hello", 2)));
    assert_eq!(cache.queue_len("other"), 1);
    assert_eq!(cache.pop("hello"), Some(request("hello", 3)));
    assert_eq!(cache.pop("hello"), None);
    assert_eq!(cache.liveness("hello"), Liveness::Starting);
    assert_eq!(cache.pop("missing"), None);
    assert_eq!(cache.pop("other"), Some(request("other", 9)));
}

#[test]
fn clean_then_upsert_yields_directive_again() {
    let mut cache: RequestCache<u32> = RequestCache::new();
    assert_eq!(cache.upsert(request("hello", 1)), Ok(Some(("hello".to_string(), 0))));
    assert_eq!(cache.upsert(request("hello", 2)), Ok(None));
    cache.clean("hello");
    assert_eq!(cache.liveness("hello"), Liveness::NotStarted);
    assert_eq!(cache.queue_len("hello"), 0);
    assert_eq!(cache.api_id("hello"), None);
    assert_eq!(cache.upsert(request("hello", 3)), Ok(Some(("hello".to_string(), 1))));
    assert_eq!(cache.queue_len("hello"), 1);
    assert_eq!(cache.queued("hello", 0), Some(&request("hello", 3)));
}

#[test]
fn clean_of_absent_function_is_a_no_op() {
    let mut cache: RequestCache<u32> = RequestCache::new();
    cache.clean("hello");
    assert_eq!(cache.len(), 0);
    let _ = cache.upsert(request("other", 1));
    cache.clean("hello");
    cache.clean("hello");
    assert_eq!(cache.len(), 1);
    assert_eq!(cache.liveness("other"), Liveness::Starting);
    assert_eq!(cache.queue_len("other"), 1);
    assert_eq!(cache.api_id("other"), Some(0));
}

#[test]
fn clean_leaves_other_functions_alone() {
    let mut cache: RequestCache<u32> = RequestCache::new();
    let _ = cache.upsert(request("a", 1));
    let _ = cache.upsert(request("b", 2));
    let _ = cache.upsert(request("c", 3));
    let _ = cache.upsert(request("b", 4));
    cache.clean("a");
    assert_eq!(cache.len(), 2);
    assert_eq!(cache.api_id("b"), Some(1));
    assert_eq!(cache.api_id("c"), Some(2));
    assert_eq!(cache.queue_len("b"), 2);
    assert_eq!(cache.queued("b", 1), Some(&request("b", 4)));
    cache.clean("c");
    assert_eq!(cache.len(), 1);
    assert_eq!(cache.api_id("b"), Some(1));
}

#[test]
fn every_directive_carries_a_new_identifier() {
    let mut cache: RequestCache<u32> = RequestCache::new();
    assert_eq!(cache.upsert(request("a", 1)), Ok(Some(("a".to_string(), 0))));
    assert_eq!(cache.upsert(request("b", 2)), Ok(Some(("b".to_string(), 1))));
    cache.clean("a");
    assert_eq!(cache.upsert(request("a", 3)), Ok(Some(("a".to_string(), 2))));
    assert_eq!(cache.upsert(request("", 4)), Ok(Some((String::new(), 3))));
    assert_eq!(cache.upsert(request("_", 5)), Ok(Some(("_".to_string(), 4))));
}

#[test]
fn malformed_name_is_turned_down() {
    let mut cache: RequestCache<u32> = RequestCache::new();
    assert_eq!(cache.upsert(request("hello world", 1)), Err(CacheError::InvalidFunction));
    assert_eq!(cache.upsert(request("a/b", 1)), Err(CacheError::InvalidFunction));
    assert_eq!(cache.upsert(request("h\u{e9}llo", 1)), Err(CacheError::InvalidFunction));
    assert_eq!(cache.upsert(request(&"x".repeat(65), 1)), Err(CacheError::InvalidFunction));
    assert_eq!(cache.len(), 0);
    assert_eq!(cache.upsert(request(&"x".repeat(64), 1)), Ok(Some(("x".repeat(64), 0))));
}

#[test]
fn offer_hands_a_refused_request_back() {
    let mut cache: RequestCache<u32> = RequestCache::new();
    assert_eq!(
        cache.offer(request("not valid", 7)),
        Err((CacheError::InvalidFunction, request("not valid", 7)))
    );
    assert_eq!(cache.offer(request("valid", 8)), Ok(Some(("valid".to_string(), 0))));
    assert_eq!(cache.offer(request("valid", 9)), Ok(None));
}

#[test]
fn cache_is_full_when_identifiers_run_out() {
    let mut cache: RequestCache<u32> = RequestCache::starting_at(u64::MAX - 1);
    assert_eq!(cache.upsert(request("a", 1)), Ok(Some(("a".to_string(), u64::MAX - 1))));
    assert_eq!(cache.upsert(request("b", 2)), Err(CacheError::CacheFull));
    assert_eq!(cache.liveness("b"), Liveness::NotStarted);
    assert_eq!(cache.upsert(request("a", 3)), Ok(None));
    assert_eq!(cache.queue_len("a"), 2);
    assert_eq!(cache.upsert(request("not valid", 4)), Err(CacheError::InvalidFunction));
}

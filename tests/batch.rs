use ramparts_proxy::batch::{merge_batch, position_of_id, split_batch, BatchValidationRequest};
use ramparts_proxy::guard::ValidationCacheEntry;
use ramparts_proxy::json::Json;

fn entry(t: u64) -> ValidationCacheEntry {
    ValidationCacheEntry { allowed: true, reason: None, confidence: None, timestamp: t }
}

#[test]
fn batches_split_by_cache_hits_and_merge_back() {
    let batch = BatchValidationRequest {
        requests: vec![
            ("a".to_string(), Json::Null),
            ("b".to_string(), Json::Bool(true)),
            ("c".to_string(), Json::Bool(false)),
        ],
    };
    let (cached, uncached) = split_batch(batch, vec![None, Some(entry(2))]);
    assert_eq!(cached.len(), 1);
    assert_eq!(cached[0].0, "b");
    assert_eq!(cached[0].1.timestamp, 2);
    let ids: Vec<&str> = uncached.iter().map(|(id, _)| id.as_str()).collect();
    assert_eq!(ids, vec!["a", "c"]);
    assert_eq!(uncached[1].1, Json::Bool(false));
    assert_eq!(position_of_id(&uncached, "c"), Some(1));
    assert_eq!(position_of_id(&uncached, "b"), None);
    let merged = merge_batch(cached, vec![("a".to_string(), entry(5)), ("c".to_string(), entry(6))]);
    let order: Vec<&str> = merged.results.iter().map(|(id, _)| id.as_str()).collect();
    assert_eq!(order, vec!["b", "a", "c"]);
}

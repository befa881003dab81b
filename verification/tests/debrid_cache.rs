use debrid_gateway::debrid_cache::{
    check_cache_status, check_cache_status_at, check_cache_status_reply, normalize_service,
    stored_expiry, submit_cached_hashes, submit_cached_hashes_at, submit_cached_hashes_reply,
    CacheLookup, CacheStatusRequest, CacheStatusStep, CacheSubmitRequest, CacheSubmitStep,
    EXPIRY_DAYS_SECS,
};

fn strings(items: &[&str]) -> Vec<String> {
    items.iter().map(|s| s.to_string()).collect()
}

fn lookup(fields: &[&str], now: i64) -> CacheLookup {
    CacheLookup {
        key: "debrid_cache:torbox".to_string(),
        fields: strings(fields),
        now,
    }
}

fn stamp(text: &str) -> Option<String> {
    Some(text.to_string())
}

#[test]
fn service_keeps_its_name() {
    assert_eq!(normalize_service("stremthru-store"), "stremthru-store");
}

#[test]
fn empty_status_request_asks_for_nothing() {
    let req = CacheStatusRequest {
        service: "torbox".to_string(),
        info_hashes: vec![],
    };
    match check_cache_status(&req) {
        CacheStatusStep::Done(response) => assert_eq!(response.cached_status.len(), 0),
        CacheStatusStep::Lookup(_) => panic!("nothing to look up"),
    }
}

#[test]
fn status_request_looks_up_every_hash() {
    let req = CacheStatusRequest {
        service: "torbox".to_string(),
        info_hashes: strings(&["a", "b", "a"]),
    };
    match check_cache_status_at(&req, 77) {
        CacheStatusStep::Lookup(l) => {
            assert_eq!(l.key, "debrid_cache:torbox");
            assert_eq!(l.fields, strings(&["a", "b", "a"]));
            assert_eq!(l.now, 77);
        }
        CacheStatusStep::Done(_) => panic!("there are hashes"),
    }
}

#[test]
fn clock_is_read_for_a_lookup() {
    let req = CacheStatusRequest {
        service: "s".to_string(),
        info_hashes: strings(&["a"]),
    };
    match check_cache_status(&req) {
        CacheStatusStep::Lookup(l) => {
            // After 2020 and before 2200.
            assert!(l.now > 1_577_836_800 && l.now < 7_258_118_400);
        }
        CacheStatusStep::Done(_) => panic!("there are hashes"),
    }
}

#[test]
fn status_tells_live_expired_and_absent_apart() {
    let reply = vec![
        stamp("101"),
        stamp("100"),
        None,
        stamp("soon"),
        stamp("+200"),
        stamp("-5"),
    ];
    let outcome = check_cache_status_reply(
        lookup(&["live", "now", "absent", "garbage", "plus", "minus"], 100),
        Ok(reply),
    );
    let status = outcome.response.cached_status;
    assert_eq!(status.len(), 6);
    assert_eq!(status.get("live"), Some(&true));
    assert_eq!(status.get("now"), Some(&false));
    assert_eq!(status.get("absent"), Some(&false));
    assert_eq!(status.get("garbage"), Some(&false));
    assert_eq!(status.get("plus"), Some(&true));
    assert_eq!(status.get("minus"), Some(&false));
    let cleanup = outcome.cleanup.unwrap();
    assert_eq!(cleanup.key, "debrid_cache:torbox");
    assert_eq!(cleanup.fields, strings(&["now", "garbage", "minus"]));
}

#[test]
fn nothing_expired_means_no_cleanup() {
    let outcome = check_cache_status_reply(lookup(&["a", "b"], 1), Ok(vec![stamp("2"), None]));
    assert!(outcome.cleanup.is_none());
}

#[test]
fn failed_lookup_reports_nothing_cached() {
    let outcome = check_cache_status_reply(lookup(&["a", "b"], 1), Err("down".to_string()));
    assert_eq!(outcome.response.cached_status.get("a"), Some(&false));
    assert_eq!(outcome.response.cached_status.get("b"), Some(&false));
    assert!(outcome.cleanup.is_none());
}

#[test]
fn short_reply_answers_for_what_it_covers() {
    let outcome = check_cache_status_reply(lookup(&["a", "b"], 1), Ok(vec![stamp("2")]));
    assert_eq!(outcome.response.cached_status.len(), 1);
    assert_eq!(outcome.response.cached_status.get("a"), Some(&true));
    assert_eq!(outcome.response.cached_status.get("b"), None);
}

#[test]
fn last_occurrence_of_a_hash_counts() {
    let outcome =
        check_cache_status_reply(lookup(&["a", "a"], 10), Ok(vec![stamp("5"), stamp("15")]));
    assert_eq!(outcome.response.cached_status.len(), 1);
    assert_eq!(outcome.response.cached_status.get("a"), Some(&true));
    assert_eq!(outcome.cleanup.unwrap().fields, strings(&["a"]));
}

#[test]
fn stored_value_that_is_no_number_has_long_expired() {
    assert_eq!(stored_expiry("1700000000"), 1_700_000_000);
    assert_eq!(stored_expiry(""), 0);
    assert_eq!(stored_expiry("12 "), 0);
    assert_eq!(stored_expiry("9223372036854775808"), 0);
}

#[test]
fn empty_submission_stores_nothing() {
    let req = CacheSubmitRequest {
        service: "torbox".to_string(),
        info_hashes: vec![],
    };
    match submit_cached_hashes(&req) {
        CacheSubmitStep::Done(reply) => {
            assert_eq!(reply.status, 200);
            assert!(reply.response.success);
            assert_eq!(reply.response.message, "No info hashes provided");
        }
        CacheSubmitStep::Store(_) => panic!("nothing to store"),
    }
}

#[test]
fn submission_stores_an_expiry_seven_days_ahead() {
    let req = CacheSubmitRequest {
        service: "realdebrid".to_string(),
        info_hashes: strings(&["x", "y", "x"]),
    };
    assert_eq!(EXPIRY_DAYS_SECS, 604800);
    match submit_cached_hashes_at(&req, 1_700_000_000) {
        CacheSubmitStep::Store(write) => {
            assert_eq!(write.key, "debrid_cache:realdebrid");
            let at = "1700604800".to_string();
            assert_eq!(
                write.mapping,
                vec![
                    ("x".to_string(), at.clone()),
                    ("y".to_string(), at.clone()),
                    ("x".to_string(), at),
                ]
            );
            let stored = submit_cached_hashes_reply(&write, Ok(()));
            assert_eq!(stored.status, 200);
            assert!(stored.response.success);
            assert_eq!(
                stored.response.message,
                "Stored 3 cached info hashes for realdebrid"
            );
            let failed = submit_cached_hashes_reply(&write, Err("down".to_string()));
            assert_eq!(failed.status, 500);
            assert!(!failed.response.success);
            assert_eq!(failed.response.message, "Error storing cached info hashes");
        }
        CacheSubmitStep::Done(_) => panic!("there are hashes"),
    }
}

#[test]
fn submitted_hashes_are_cached_for_seven_days() {
    let req = CacheSubmitRequest {
        service: "torbox".to_string(),
        info_hashes: strings(&["x", "y"]),
    };
    let write = match submit_cached_hashes_at(&req, 1000) {
        CacheSubmitStep::Store(write) => write,
        CacheSubmitStep::Done(_) => panic!("there are hashes"),
    };
    let values: Vec<Option<String>> = write.mapping.iter().map(|m| Some(m.1.clone())).collect();
    let before = check_cache_status_reply(lookup(&["x", "y"], 1000 + 604799), Ok(values.clone()));
    assert_eq!(before.response.cached_status.get("x"), Some(&true));
    assert_eq!(before.response.cached_status.get("y"), Some(&true));
    assert!(before.cleanup.is_none());
    let after = check_cache_status_reply(lookup(&["x", "y"], 1000 + 604800), Ok(values));
    assert_eq!(after.response.cached_status.get("x"), Some(&false));
    assert_eq!(after.response.cached_status.get("y"), Some(&false));
    assert_eq!(after.cleanup.unwrap().fields, strings(&["x", "y"]));
}

#[test]
fn submitted_hashes_are_judged_apart_from_others() {
    let req = CacheSubmitRequest {
        service: "torbox".to_string(),
        info_hashes: strings(&["x"]),
    };
    let write = match submit_cached_hashes_at(&req, 1000) {
        CacheSubmitStep::Store(write) => write,
        CacheSubmitStep::Done(_) => panic!("there are hashes"),
    };
    let submitted = Some(write.mapping[0].1.clone());
    let reply = vec![stamp("7"), submitted.clone(), None, submitted];
    let fields = ["old", "x", "absent", "x"];
    let before = check_cache_status_reply(lookup(&fields, 1000 + 604799), Ok(reply.clone()));
    let status = before.response.cached_status;
    assert_eq!(status.get("x"), Some(&true));
    assert_eq!(status.get("old"), Some(&false));
    assert_eq!(status.get("absent"), Some(&false));
    assert_eq!(before.cleanup.unwrap().fields, strings(&["old"]));
    let after = check_cache_status_reply(lookup(&fields, 1000 + 604800), Ok(reply));
    assert_eq!(after.response.cached_status.get("x"), Some(&false));
    assert_eq!(after.cleanup.unwrap().fields, strings(&["old", "x", "x"]));
}

#[test]
fn submission_reads_the_clock() {
    let req = CacheSubmitRequest {
        service: "s".to_string(),
        info_hashes: strings(&["x"]),
    };
    match submit_cached_hashes(&req) {
        CacheSubmitStep::Store(write) => {
            let expiry: i64 = write.mapping[0].1.parse().unwrap();
            assert!(expiry > 1_577_836_800 + 604800);
        }
        CacheSubmitStep::Done(_) => panic!("there are hashes"),
    }
}

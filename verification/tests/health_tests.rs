use fleet_control::health::{
    construct_url, contains_str, fresh_worker_key, json_eq, json_path_exists, probe_success,
    split_dots, worker_key, CustomCheckType, CustomHealthCheck, Header, HealthCheck,
    HealthCheckConfigError, HealthCheckType, HealthTask, HealthTaskSet, HttpMethod, JsonMember,
    JsonValue, Network, ProbeOutcome, WorkerInfo, MIN_INTERVAL_MS,
};

fn config(interval: u64, timeout: u64) -> HealthCheck {
    HealthCheck {
        path: "/health".to_string(),
        port: 3000,
        method: Some(HttpMethod::GET),
        tls_skip_verification: Some(false),
        grace_period: 500,
        interval,
        timeout,
        max_failures: 3,
        check_type: HealthCheckType::HTTP,
        headers: Some(vec![Header { key: "accept".to_string(), value: "text/plain".to_string() }]),
        custom_health_check: None,
    }
}

fn obj(members: Vec<(&str, JsonValue)>) -> JsonValue {
    JsonValue::Object(
        members
            .into_iter()
            .map(|(k, v)| JsonMember { key: k.to_string(), value: v })
            .collect(),
    )
}

#[test]
fn short_interval_is_rejected_at_config_time() {
    let c = config(9_999, 500);
    assert_eq!(c.validate(), Err(HealthCheckConfigError::IntervalTooShort));
    let c = config(MIN_INTERVAL_MS, 500);
    assert!(c.validate().is_ok());
}

#[test]
fn timeout_must_fit_in_interval() {
    let c = config(10_000, 10_001);
    assert_eq!(c.validate(), Err(HealthCheckConfigError::TimeoutExceedsInterval));
    let c = config(10_000, 10_000);
    assert!(c.validate().is_ok());
}

#[test]
fn zero_max_failures_marks_unavailable_on_first_failure() {
    let mut t = HealthTask::new(0);
    let mark = t.observe(false);
    assert!(mark);
    assert_eq!(t.failures, 1);
}

#[test]
fn failures_reset_on_pass() {
    let mut t = HealthTask::new(2);
    assert!(!t.observe(false));
    assert!(!t.observe(false));
    assert!(t.observe(false));
    assert!(!t.observe(true));
    assert_eq!(t.failures, 0);
}

#[test]
fn json_path_check_scenario() {
    // Config JsonValueExists{ json_path: "result.ok", expected: true }.
    let expected = JsonValue::Bool(true);
    let good = obj(vec![("result", obj(vec![("ok", JsonValue::Bool(true))]))]);
    let bad = obj(vec![("result", obj(vec![("ok", JsonValue::Bool(false))]))]);
    assert!(json_path_exists(&good, "result.ok", &expected));
    assert!(!json_path_exists(&bad, "result.ok", &expected));

    // Driven through the probe judgement and the failure counter:
    // after max_failures + 1 consecutive failures the store is told
    // the worker is unavailable.
    let custom = Some(CustomHealthCheck {
        check_type: CustomCheckType::JsonValueExists {
            json_path: "result.ok".to_string(),
            expected_value: JsonValue::Bool(true),
        },
    });
    let outcome = ProbeOutcome::Responded {
        status: 200,
        body: "{\"result\":{\"ok\":false}}".to_string(),
        json: Some(obj(vec![("result", obj(vec![("ok", JsonValue::Bool(false))]))])),
    };
    let mut task = HealthTask::new(1);
    let mut marked = false;
    for _ in 0..2 {
        let passed = probe_success(&custom, &outcome);
        assert!(!passed);
        marked = task.observe(passed);
    }
    assert!(marked);
}

#[test]
fn json_path_missing_intermediate_node_fails() {
    let v = obj(vec![("result", obj(vec![("ok", JsonValue::Bool(true))]))]);
    assert!(!json_path_exists(&v, "result.missing", &JsonValue::Bool(true)));
    assert!(!json_path_exists(&v, "other.ok", &JsonValue::Bool(true)));
    // A non-object intermediate node fails too.
    assert!(!json_path_exists(&v, "result.ok.deeper", &JsonValue::Bool(true)));
}

#[test]
fn json_equality_is_by_content() {
    let a = obj(vec![
        ("xs", JsonValue::Array(vec![JsonValue::Int(1), JsonValue::Str("two".to_string())])),
        ("n", JsonValue::Null),
    ]);
    let b = obj(vec![
        ("xs", JsonValue::Array(vec![JsonValue::Int(1), JsonValue::Str("two".to_string())])),
        ("n", JsonValue::Null),
    ]);
    let c = obj(vec![
        ("xs", JsonValue::Array(vec![JsonValue::Int(2), JsonValue::Str("two".to_string())])),
        ("n", JsonValue::Null),
    ]);
    assert!(json_eq(&a, &b));
    assert!(!json_eq(&a, &c));
}

#[test]
fn split_dots_segments() {
    assert_eq!(split_dots("a.b.c"), vec!["a", "b", "c"]);
    assert_eq!(split_dots("single"), vec!["single"]);
    assert_eq!(split_dots("a..b"), vec!["a", "", "b"]);
}

#[test]
fn body_substring_check() {
    let custom = Some(CustomHealthCheck {
        check_type: CustomCheckType::ResponseContainersString("it works".to_string()),
    });
    let good = ProbeOutcome::Responded {
        status: 500,
        body: "yes it works here".to_string(),
        json: None,
    };
    let bad = ProbeOutcome::Responded { status: 200, body: "broken".to_string(), json: None };
    assert!(probe_success(&custom, &good));
    assert!(!probe_success(&custom, &bad));
    assert!(contains_str("hello world", "lo wo"));
    assert!(!contains_str("hello world", "low"));
    assert!(contains_str("anything", ""));
}

#[test]
fn status_allow_list_check() {
    let custom = Some(CustomHealthCheck {
        check_type: CustomCheckType::ResponseStatus(vec![200, 204, 418]),
    });
    let teapot = ProbeOutcome::Responded { status: 418, body: String::new(), json: None };
    let nope = ProbeOutcome::Responded { status: 301, body: String::new(), json: None };
    assert!(probe_success(&custom, &teapot));
    assert!(!probe_success(&custom, &nope));
}

#[test]
fn default_check_is_protocol_native() {
    let ok = ProbeOutcome::Responded { status: 204, body: String::new(), json: None };
    let clienterr = ProbeOutcome::Responded { status: 404, body: String::new(), json: None };
    assert!(probe_success(&None, &ok));
    assert!(!probe_success(&None, &clienterr));
    assert!(!probe_success(&None, &ProbeOutcome::Failed));
}

#[test]
fn liveness_key_format() {
    let key = worker_key(7, 9, "fra", "0f8fad5b-d9cb-469f-a165-70867728950e");
    assert_eq!(key, "pj:7:wkr:9:fra:0f8fad5b-d9cb-469f-a165-70867728950e");
}

#[test]
fn fresh_keys_carry_a_uuid() {
    let key = fresh_worker_key(5, 6, "fra");
    let prefix = "pj:5:wkr:6:fra:";
    assert!(key.starts_with(prefix));
    assert_eq!(key.len(), prefix.len() + 36);
    // Two fresh keys differ in their identifier part.
    let other = fresh_worker_key(5, 6, "fra");
    assert_ne!(key, other);
}

#[test]
fn probe_url_construction() {
    let worker = WorkerInfo { id: 1, network: Network { primary_ipv4: "10.0.0.8".to_string() } };
    let mut c = config(10_000, 500);
    assert_eq!(construct_url(&worker, &c), "http://10.0.0.8:3000/health");
    c.check_type = HealthCheckType::HTTPS;
    c.path = "status".to_string();
    c.port = 8443;
    assert_eq!(construct_url(&worker, &c), "https://10.0.0.8:8443/status");
}

#[test]
fn stopping_a_task_removes_its_key() {
    let mut set = HealthTaskSet::new();
    set.register("k1".to_string());
    set.register("k2".to_string());
    assert!(set.stop("k1"));
    assert!(!set.stop("k1"));
    assert!(set.stop("k2"));
    assert_eq!(set.keys.len(), 0);
}

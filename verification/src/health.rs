//! Health checking: the per-worker probe configuration, its
//! validation, the assertion semantics of custom checks, and the
//! failure counting that drives the shared liveness store.
//!
//! Probes themselves (HTTP, TCP) run outside; this module decides
//! what a response means and what to write.

use vstd::prelude::*;
use crate::strutil::{str_eq, spec_decimal, u64_to_string};

verus! {

/// Smallest accepted probe interval, in milliseconds.
pub const MIN_INTERVAL_MS: u64 = 10_000;

/// The HTTP method of a probe.
#[derive(Clone, Copy, Debug, PartialEq, Eq, Structural)]
pub enum HttpMethod {
    GET,
    POST,
    PUT,
    DELETE,
    PATCH,
    OPTIONS,
}

/// The protocol of a probe.
#[derive(Clone, Copy, Debug, PartialEq, Eq, Structural)]
pub enum HealthCheckType {
    HTTPS,
    HTTP,
    TCP,
}

/// One header sent with a probe.
#[derive(Debug, Clone)]
pub struct Header {
    pub key: String,
    pub value: String,
}

/// A JSON value as the content checks read it.  Numbers are kept as
/// integers; the checks compare for equality only.
#[derive(Debug)]
pub enum JsonValue {
    Null,
    Bool(bool),
    Int(i64),
    Str(String),
    Array(Vec<JsonValue>),
    Object(Vec<JsonMember>),
}

/// One key/value member of a JSON object.
#[derive(Debug)]
pub struct JsonMember {
    pub key: String,
    pub value: JsonValue,
}

/// The content assertion of a health check.
#[derive(Debug)]
pub enum CustomCheckType {
    /// Walk `json_path` (dot-separated keys) in the body; succeed iff
    /// the node is there and equals `expected_value`.
    JsonValueExists { json_path: String, expected_value: JsonValue },
    /// Succeed iff the decoded body contains the string.
    ResponseContainersString(String),
    /// Succeed iff the response status is one of these.
    ResponseStatus(Vec<u16>),
}

/// Wrapper for the configured content assertion.
#[derive(Debug)]
pub struct CustomHealthCheck {
    pub check_type: CustomCheckType,
}

/// One health-check configuration row.
#[derive(Debug)]
pub struct HealthCheck {
    pub path: String,
    pub port: u64,
    pub method: Option<HttpMethod>,
    pub tls_skip_verification: Option<bool>,
    pub grace_period: u64,
    pub interval: u64,
    pub timeout: u64,
    pub max_failures: u64,
    pub check_type: HealthCheckType,
    pub headers: Option<Vec<Header>>,
    pub custom_health_check: Option<CustomHealthCheck>,
}

/// Why a configuration was rejected.
#[derive(Clone, Copy, Debug, PartialEq, Eq, Structural)]
pub enum HealthCheckConfigError {
    /// `interval` under the 10-second floor.
    IntervalTooShort,
    /// `timeout` longer than the interval.
    TimeoutExceedsInterval,
}

impl HealthCheck {
    /// The configuration invariant: probes at least ten seconds
    /// apart, and a timeout that fits in the interval.
    pub open spec fn valid(&self) -> bool {
        self.interval >= MIN_INTERVAL_MS && self.timeout <= self.interval
    }

    /// Accepts a configuration exactly when it is valid; the error
    /// names the first rule broken.
    pub fn validate(&self) -> (r: Result<(), HealthCheckConfigError>)
        ensures
            (r is Ok) == self.valid(),
            self.interval < MIN_INTERVAL_MS ==> r == Result::<
                (), HealthCheckConfigError>::Err(HealthCheckConfigError::IntervalTooShort),
            self.interval >= MIN_INTERVAL_MS && self.timeout > self.interval ==> r == Result::<
                (), HealthCheckConfigError>::Err(HealthCheckConfigError::TimeoutExceedsInterval),
    {
        if self.interval < MIN_INTERVAL_MS {
            Err(HealthCheckConfigError::IntervalTooShort)
        } else if self.timeout > self.interval {
            Err(HealthCheckConfigError::TimeoutExceedsInterval)
        } else {
            Ok(())
        }
    }
}

/// Networking information of a worker.
#[derive(Debug, Clone)]
pub struct Network {
    pub primary_ipv4: String,
}

/// A worker the scheduler probes.
#[derive(Debug, Clone)]
pub struct WorkerInfo {
    pub id: u64,
    pub network: Network,
}

/// The running failure count of one health-check task.
#[derive(Clone, Copy, Debug, PartialEq, Eq, Structural)]
pub struct HealthTask {
    pub failures: u64,
    pub max_failures: u64,
}

impl HealthTask {
    /// A task starts with a clean slate.
    pub fn new(max_failures: u64) -> (t: HealthTask)
        ensures
            t.failures == 0,
            t.max_failures == max_failures,
    {
        HealthTask { failures: 0, max_failures }
    }

    /// Accounts one probe: a pass resets the count, a failure adds
    /// one.  Returns whether the worker must now be marked
    /// unavailable in the store: exactly when the count passes
    /// `max_failures`.
    pub fn observe(&mut self, passed: bool) -> (mark_unavailable: bool)
        ensures
            passed ==> final(self).failures == 0,
            !passed && old(self).failures < u64::MAX ==> final(self).failures == old(
                self).failures + 1,
            !passed && old(self).failures == u64::MAX ==> final(self).failures == u64::MAX,
            mark_unavailable == (final(self).failures > final(self).max_failures),
            final(self).max_failures == old(self).max_failures,
    {
        if passed {
            self.failures = 0;
        } else if self.failures < u64::MAX {
            self.failures = self.failures + 1;
        }
        self.failures > self.max_failures
    }
}

/// The key a worker's liveness is stored under:
/// `pj:{project}:wkr:{worker}:{region}:{uuid}`.
pub open spec fn spec_worker_key(
    project_id: u64,
    worker_id: u64,
    region: Seq<char>,
    uuid: Seq<char>,
) -> Seq<char> {
    "pj:"@ + spec_decimal(project_id as nat) + ":wkr:"@ + spec_decimal(worker_id as nat) + ":"@
        + region + ":"@ + uuid
}

/// Builds the liveness-store key of one health-check task.
pub fn worker_key(project_id: u64, worker_id: u64, region: &str, uuid: &str) -> (key: String)
    ensures
        key@ == spec_worker_key(project_id, worker_id, region@, uuid@),
{
    let mut key = "pj:".to_owned();
    let project = u64_to_string(project_id);
    key.append(project.as_str());
    key.append(":wkr:");
    let worker = u64_to_string(worker_id);
    key.append(worker.as_str());
    key.append(":");
    key.append(region);
    key.append(":");
    key.append(uuid);
    key
}

/// Builds the liveness-store key of a new task under a fresh
/// identifier.  Whatever identifier came back, the key has the
/// documented shape.
pub fn fresh_worker_key(project_id: u64, worker_id: u64, region: &str) -> (key: String)
    ensures
        exists|u: Seq<char>|
            u.len() == 36 && key@ == spec_worker_key(project_id, worker_id, region@, u),
{
    let uuid = crate::stamp::new_uuid();
    let ghost u = uuid@;
    let key = worker_key(project_id, worker_id, region, uuid.as_str());
    proof {
        assert(u.len() == 36 && key@ == spec_worker_key(project_id, worker_id, region@, u));
    }
    key
}

/// A path with its leading slash dropped, as the URL builder wants it.
pub open spec fn spec_strip_leading_slash(s: Seq<char>) -> Seq<char> {
    if s.len() > 0 && s[0] == '/' {
        s.skip(1)
    } else {
        s
    }
}

/// The URL a worker is probed at:
/// `http{s}://{ip}:{port}/{path-without-leading-slash}`.
pub open spec fn spec_probe_url(
    check_type: HealthCheckType,
    ip: Seq<char>,
    port: u64,
    path: Seq<char>,
) -> Seq<char> {
    (if check_type == HealthCheckType::HTTPS {
        "https://"@
    } else {
        "http://"@
    }) + ip + ":"@ + spec_decimal(port as nat) + "/"@ + spec_strip_leading_slash(path)
}

/// Builds the probe URL of a worker and a configuration.
pub fn construct_url(worker: &WorkerInfo, config: &HealthCheck) -> (url: String)
    ensures
        url@ == spec_probe_url(
            config.check_type,
            worker.network.primary_ipv4@,
            config.port,
            config.path@,
        ),
{
    let mut url = if config.check_type == HealthCheckType::HTTPS {
        "https://".to_owned()
    } else {
        "http://".to_owned()
    };
    url.append(worker.network.primary_ipv4.as_str());
    url.append(":");
    let port = u64_to_string(config.port);
    url.append(port.as_str());
    url.append("/");
    let path = config.path.as_str();
    let n = path.unicode_len();
    if n > 0 && path.get_char(0) == '/' {
        let stripped = path.substring_char(1, n);
        url.append(stripped);
    } else {
        url.append(path);
    }
    url
}

/// Equality of two JSON values, compared by content.
pub open spec fn spec_json_eq(a: JsonValue, b: JsonValue) -> bool
    decreases a,
{
    match (a, b) {
        (JsonValue::Null, JsonValue::Null) => true,
        (JsonValue::Bool(x), JsonValue::Bool(y)) => x == y,
        (JsonValue::Int(x), JsonValue::Int(y)) => x == y,
        (JsonValue::Str(x), JsonValue::Str(y)) => x@ == y@,
        (JsonValue::Array(xs), JsonValue::Array(ys)) => xs@.len() == ys@.len() && (forall|i: int|
            0 <= i < xs@.len() ==> spec_json_eq(#[trigger] xs@[i], ys@[i])),
        (JsonValue::Object(xs), JsonValue::Object(ys)) => xs@.len() == ys@.len() && (forall|
            i: int,
        |
            0 <= i < xs@.len() ==> (#[trigger] xs@[i]).key@ == ys@[i].key@ && spec_json_eq(
                xs@[i].value,
                ys@[i].value,
            )),
        _ => false,
    }
}

/// Compares two JSON values by content.
pub fn json_eq(a: &JsonValue, b: &JsonValue) -> (r: bool)
    ensures
        r == spec_json_eq(*a, *b),
    decreases *a,
{
    match (a, b) {
        (JsonValue::Null, JsonValue::Null) => true,
        (JsonValue::Bool(x), JsonValue::Bool(y)) => x == y,
        (JsonValue::Int(x), JsonValue::Int(y)) => x == y,
        (JsonValue::Str(x), JsonValue::Str(y)) => str_eq(x.as_str(), y.as_str()),
        (JsonValue::Array(xs), JsonValue::Array(ys)) => json_eq_arrays(xs, ys),
        (JsonValue::Object(xs), JsonValue::Object(ys)) => json_eq_members(xs, ys),
        _ => false,
    }
}

fn json_eq_arrays(xs: &Vec<JsonValue>, ys: &Vec<JsonValue>) -> (r: bool)
    ensures
        r == (xs@.len() == ys@.len() && (forall|i: int|
            0 <= i < xs@.len() ==> spec_json_eq(#[trigger] xs@[i], ys@[i]))),
    decreases *xs,
{
    broadcast use vstd::std_specs::vec::axiom_vec_index_decreases;

    if xs.len() != ys.len() {
        return false;
    }
    let mut i: usize = 0;
    while i < xs.len()
        invariant
            xs@.len() == ys@.len(),
            i <= xs@.len(),
            forall|j: int| 0 <= j < i ==> spec_json_eq(#[trigger] xs@[j], ys@[j]),
        decreases xs@.len() - i,
    {
        if !json_eq(&xs[i], &ys[i]) {
            return false;
        }
        i = i + 1;
    }
    true
}

fn json_eq_members(xs: &Vec<JsonMember>, ys: &Vec<JsonMember>) -> (r: bool)
    ensures
        r == (xs@.len() == ys@.len() && (forall|i: int|
            0 <= i < xs@.len() ==> (#[trigger] xs@[i]).key@ == ys@[i].key@ && spec_json_eq(
                xs@[i].value,
                ys@[i].value,
            ))),
    decreases *xs,
{
    broadcast use vstd::std_specs::vec::axiom_vec_index_decreases;

    if xs.len() != ys.len() {
        return false;
    }
    let mut i: usize = 0;
    while i < xs.len()
        invariant
            xs@.len() == ys@.len(),
            i <= xs@.len(),
            forall|j: int|
                0 <= j < i ==> (#[trigger] xs@[j]).key@ == ys@[j].key@ && spec_json_eq(
                    xs@[j].value,
                    ys@[j].value,
                ),
        decreases xs@.len() - i,
    {
        if !str_eq(xs[i].key.as_str(), ys[i].key.as_str()) {
            return false;
        }
        if !json_eq(&xs[i].value, &ys[i].value) {
            return false;
        }
        i = i + 1;
    }
    true
}

/// The value an object holds under a key: the first member with that
/// key, scanned front to back.
pub open spec fn spec_lookup(members: Seq<JsonMember>, key: Seq<char>) -> Option<JsonValue>
    decreases members.len(),
{
    if members.len() == 0 {
        None
    } else if members.first().key@ == key {
        Some(members.first().value)
    } else {
        spec_lookup(members.drop_first(), key)
    }
}

proof fn lemma_lookup_at(members: Seq<JsonMember>, i: int, key: Seq<char>)
    requires
        0 <= i < members.len(),
        members[i].key@ == key,
        forall|j: int| 0 <= j < i ==> (#[trigger] members[j].key@) != key,
    ensures
        spec_lookup(members, key) == Some(members[i].value),
    decreases members.len(),
{
    if i > 0 {
        lemma_lookup_at(members.drop_first(), i - 1, key);
    }
}

proof fn lemma_lookup_absent(members: Seq<JsonMember>, key: Seq<char>)
    requires
        forall|j: int| 0 <= j < members.len() ==> (#[trigger] members[j].key@) != key,
    ensures
        spec_lookup(members, key) is None,
    decreases members.len(),
{
    if members.len() > 0 {
        lemma_lookup_absent(members.drop_first(), key);
    }
}

/// Walks a JSON value along a segment path: each segment selects an
/// object member; a missing member or a non-object node fails.
pub open spec fn spec_walk(v: JsonValue, segs: Seq<Seq<char>>) -> Option<JsonValue>
    decreases segs.len(),
{
    if segs.len() == 0 {
        Some(v)
    } else {
        match v {
            JsonValue::Object(ms) => match spec_lookup(ms@, segs.first()) {
                Some(child) => spec_walk(child, segs.drop_first()),
                None => None,
            },
            _ => None,
        }
    }
}

/// Position of the first dot in a path, or -1.
pub open spec fn spec_first_dot(s: Seq<char>) -> int
    decreases s.len(),
{
    if s.len() == 0 {
        -1
    } else if s[0] == '.' {
        0
    } else {
        let r = spec_first_dot(s.drop_first());
        if r == -1 {
            -1
        } else {
            r + 1
        }
    }
}

proof fn lemma_first_dot_bounds(s: Seq<char>)
    ensures
        spec_first_dot(s) == -1 || (0 <= spec_first_dot(s) < s.len() && s[spec_first_dot(s)]
            == '.'),
        spec_first_dot(s) == -1 ==> forall|j: int| 0 <= j < s.len() ==> s[j] != '.',
        forall|j: int| 0 <= j < spec_first_dot(s) ==> s[j] != '.',
    decreases s.len(),
{
    if s.len() == 0 {
    } else if s[0] == '.' {
    } else {
        lemma_first_dot_bounds(s.drop_first());
        let r = spec_first_dot(s.drop_first());
        if r == -1 {
            assert forall|j: int| 0 <= j < s.len() implies s[j] != '.' by {
                if j > 0 {
                    assert(s.drop_first()[j - 1] == s[j]);
                }
            }
        } else {
            assert(spec_first_dot(s) == r + 1);
            assert(s[r + 1] == s.drop_first()[r]);
            assert forall|j: int| 0 <= j < r + 1 implies s[j] != '.' by {
                if j > 0 {
                    assert(s.drop_first()[j - 1] == s[j]);
                }
            }
        }
    }
}

proof fn lemma_first_dot_found(s: Seq<char>, i: int)
    requires
        0 <= i < s.len(),
        s[i] == '.',
        forall|j: int| 0 <= j < i ==> s[j] != '.',
    ensures
        spec_first_dot(s) == i,
    decreases s.len(),
{
    if i > 0 {
        lemma_first_dot_found(s.drop_first(), i - 1);
    }
}

proof fn lemma_first_dot_none(s: Seq<char>)
    requires
        forall|j: int| 0 <= j < s.len() ==> s[j] != '.',
    ensures
        spec_first_dot(s) == -1,
    decreases s.len(),
{
    if s.len() > 0 {
        lemma_first_dot_none(s.drop_first());
    }
}

/// A dot-separated path, split into its segments.
pub open spec fn spec_split_dots(s: Seq<char>) -> Seq<Seq<char>>
    decreases s.len(),
{
    let d = spec_first_dot(s);
    if 0 <= d < s.len() {
        seq![s.take(d)] + spec_split_dots(s.skip(d + 1))
    } else {
        seq![s]
    }
}

fn find_first_dot(s: &str) -> (r: Option<usize>)
    ensures
        r matches Some(i) ==> spec_first_dot(s@) == i,
        r is None ==> spec_first_dot(s@) == -1,
{
    let n = s.unicode_len();
    let mut i: usize = 0;
    while i < n
        invariant
            n == s@.len(),
            i <= n,
            forall|j: int| 0 <= j < i ==> s@[j] != '.',
        decreases n - i,
    {
        if s.get_char(i) == '.' {
            proof {
                lemma_first_dot_found(s@, i as int);
            }
            return Some(i);
        }
        i = i + 1;
    }
    proof {
        lemma_first_dot_none(s@);
    }
    None
}

/// Splits a dot-separated path into its segments.
pub fn split_dots(s: &str) -> (segs: Vec<String>)
    ensures
        segs@.map_values(|x: String| x@) == spec_split_dots(s@),
    decreases s@.len(),
{
    match find_first_dot(s) {
        None => {
            let mut segs: Vec<String> = Vec::new();
            segs.push(s.to_owned());
            proof {
                assert(segs@.map_values(|x: String| x@) =~= spec_split_dots(s@));
            }
            segs
        },
        Some(d) => {
            let n = s.unicode_len();
            proof {
                lemma_first_dot_bounds(s@);
            }
            let head = s.substring_char(0, d);
            let tail = s.substring_char(d + 1, n);
            let mut segs: Vec<String> = Vec::new();
            segs.push(head.to_owned());
            let mut rest = split_dots(tail);
            segs.append(&mut rest);
            proof {
                assert(tail@ =~= s@.skip(d + 1));
                assert(head@ =~= s@.take(d as int));
                assert(segs@.map_values(|x: String| x@) =~= spec_split_dots(s@));
            }
            segs
        },
    }
}

/// Whether walking `path` in `v` lands on a node equal to `expected`.
pub open spec fn spec_json_path_matches(v: JsonValue, path: Seq<char>, expected: JsonValue) -> bool {
    match spec_walk(v, spec_split_dots(path)) {
        Some(node) => spec_json_eq(node, expected),
        None => false,
    }
}

/// Walks a dot-separated path in a JSON body and compares the node it
/// lands on with the expected value; a missing intermediate node is a
/// failure.
pub fn json_path_exists(json: &JsonValue, json_path: &str, expected_value: &JsonValue) -> (r:
    bool)
    ensures
        r == spec_json_path_matches(*json, json_path@, *expected_value),
{
    let segs = split_dots(json_path);
    let ghost all_segs = segs@.map_values(|x: String| x@);
    let mut cur: &JsonValue = json;
    let mut i: usize = 0;
    proof {
        assert(all_segs.skip(0) =~= all_segs);
    }
    while i < segs.len()
        invariant
            all_segs == segs@.map_values(|x: String| x@),
            all_segs == spec_split_dots(json_path@),
            i <= segs@.len(),
            spec_walk(*json, all_segs) == spec_walk(*cur, all_segs.skip(i as int)),
        decreases segs@.len() - i,
    {
        let ghost remaining = all_segs.skip(i as int);
        proof {
            assert(remaining.len() > 0);
            assert(remaining.first() == all_segs[i as int]);
            assert(remaining.drop_first() =~= all_segs.skip(i + 1 as int));
        }
        match cur {
            JsonValue::Object(ms) => {
                let seg = segs[i].as_str();
                match find_member(ms, seg) {
                    Some(k) => {
                        cur = &ms[k].value;
                    },
                    None => {
                        proof {
                            assert(spec_walk(*json, all_segs) is None);
                        }
                        return false;
                    },
                }
            },
            _ => {
                proof {
                    assert(spec_walk(*json, all_segs) is None);
                }
                return false;
            },
        }
        i = i + 1;
    }
    proof {
        assert(all_segs.skip(segs@.len() as int) =~= Seq::<Seq<char>>::empty());
    }
    json_eq(cur, expected_value)
}

/// Finds the first member of an object with a key.
fn find_member(ms: &Vec<JsonMember>, key: &str) -> (r: Option<usize>)
    ensures
        r matches Some(k) ==> k < ms@.len() && spec_lookup(ms@, key@) == Some(
            ms@[k as int].value),
        r is None ==> spec_lookup(ms@, key@) is None,
{
    let mut k: usize = 0;
    while k < ms.len()
        invariant
            k <= ms@.len(),
            forall|j: int| 0 <= j < k ==> (#[trigger] ms@[j].key@) != key@,
        decreases ms@.len() - k,
    {
        if str_eq(ms[k].key.as_str(), key) {
            proof {
                lemma_lookup_at(ms@, k as int, key@);
            }
            return Some(k);
        }
        k = k + 1;
    }
    proof {
        lemma_lookup_absent(ms@, key@);
    }
    None
}

/// Whether `needle` occurs in `hay` starting at position `i`.
pub open spec fn spec_contains_at(hay: Seq<char>, needle: Seq<char>, i: int) -> bool {
    0 <= i && i + needle.len() <= hay.len() && hay.subrange(i, i + needle.len()) == needle
}

/// Whether `needle` occurs anywhere in `hay`.
pub open spec fn spec_contains_str(hay: Seq<char>, needle: Seq<char>) -> bool {
    exists|i: int| spec_contains_at(hay, needle, i)
}

/// Searches a body for a substring.
pub fn contains_str(hay: &str, needle: &str) -> (r: bool)
    ensures
        r == spec_contains_str(hay@, needle@),
{
    let hn = hay.unicode_len();
    let nn = needle.unicode_len();
    if nn > hn {
        proof {
            assert forall|i: int| !spec_contains_at(hay@, needle@, i) by {}
        }
        return false;
    }
    if nn == 0 {
        proof {
            assert(hay@.subrange(0, 0) =~= needle@);
            assert(spec_contains_at(hay@, needle@, 0));
        }
        return true;
    }
    let mut i: usize = 0;
    while i <= hn - nn
        invariant
            hn == hay@.len(),
            nn == needle@.len(),
            1 <= nn <= hn,
            i <= hn - nn + 1,
            forall|ii: int| 0 <= ii < i ==> !spec_contains_at(hay@, needle@, ii),
        decreases hn - nn + 1 - i,
    {
        if match_at(hay, needle, i) {
            return true;
        }
        i = i + 1;
    }
    proof {
        assert forall|ii: int| !spec_contains_at(hay@, needle@, ii) by {
            if 0 <= ii <= hn - nn {
                assert(ii < i);
            }
        }
    }
    false
}

/// Whether the needle matches at one position.
fn match_at(hay: &str, needle: &str, i: usize) -> (r: bool)
    requires
        i + needle@.len() <= hay@.len(),
    ensures
        r == spec_contains_at(hay@, needle@, i as int),
{
    let hn = hay.unicode_len();
    let nn = needle.unicode_len();
    let mut j: usize = 0;
    while j < nn
        invariant
            hn == hay@.len(),
            nn == needle@.len(),
            i + nn <= hn,
            j <= nn,
            forall|jj: int| 0 <= jj < j ==> hay@[i + jj] == needle@[jj],
        decreases nn - j,
    {
        if hay.get_char(i + j) != needle.get_char(j) {
            proof {
                if spec_contains_at(hay@, needle@, i as int) {
                    assert(hay@.subrange(i as int, i + needle@.len())[j as int] == hay@[i + j]);
                    assert(false);
                }
            }
            return false;
        }
        j = j + 1;
    }
    proof {
        assert(hay@.subrange(i as int, i + needle@.len()) =~= needle@);
    }
    true
}

/// What one probe produced, as the transport hands it back.
#[derive(Debug)]
pub enum ProbeOutcome {
    /// Protocol error or timeout: nothing came back.
    Failed,
    /// A response, with its decoded body and, when the body is valid
    /// JSON, its parsed form.
    Responded { status: u16, body: String, json: Option<JsonValue> },
}

/// Whether an HTTP status is a success.
pub open spec fn spec_status_2xx(s: u16) -> bool {
    200 <= s < 300
}

/// Whether a probe outcome counts as a pass under a configuration's
/// assertion: with no custom check, the protocol-native outcome;
/// otherwise the configured assertion.
pub open spec fn spec_probe_success(custom: Option<CustomHealthCheck>, outcome: ProbeOutcome)
    -> bool {
    match outcome {
        ProbeOutcome::Failed => false,
        ProbeOutcome::Responded { status, body, json } => match custom {
            None => spec_status_2xx(status),
            Some(c) => match c.check_type {
                CustomCheckType::JsonValueExists { json_path, expected_value } => match json {
                    Some(j) => spec_json_path_matches(j, json_path@, expected_value),
                    None => false,
                },
                CustomCheckType::ResponseContainersString(sub) => spec_contains_str(body@, sub@),
                CustomCheckType::ResponseStatus(codes) => codes@.contains(status),
            },
        },
    }
}

/// Judges one probe outcome under the configured assertion.
pub fn probe_success(custom: &Option<CustomHealthCheck>, outcome: &ProbeOutcome) -> (r: bool)
    ensures
        r == spec_probe_success(
            match custom {
                Some(c) => Some(*c),
                None => None,
            },
            *outcome,
        ),
{
    match outcome {
        ProbeOutcome::Failed => false,
        ProbeOutcome::Responded { status, body, json } => match custom {
            None => 200 <= *status && *status < 300,
            Some(c) => match &c.check_type {
                CustomCheckType::JsonValueExists { json_path, expected_value } => match json {
                    Some(j) => json_path_exists(j, json_path.as_str(), expected_value),
                    None => false,
                },
                CustomCheckType::ResponseContainersString(sub) => contains_str(
                    body.as_str(),
                    sub.as_str(),
                ),
                CustomCheckType::ResponseStatus(codes) => contains_code(codes, *status),
            },
        },
    }
}

/// Whether a status is one of the allowed codes.
fn contains_code(codes: &Vec<u16>, status: u16) -> (r: bool)
    ensures
        r == codes@.contains(status),
{
    let mut k: usize = 0;
    while k < codes.len()
        invariant
            k <= codes@.len(),
            forall|j: int| 0 <= j < k ==> codes@[j] != status,
        decreases codes@.len() - k,
    {
        if codes[k] == status {
            proof {
                assert(codes@[k as int] == status);
            }
            return true;
        }
        k = k + 1;
    }
    proof {
        assert(!codes@.contains(status));
    }
    false
}

/// The keys of the health-check tasks running on this worker.
pub struct HealthTaskSet {
    pub keys: Vec<String>,
}

impl HealthTaskSet {
    /// No tasks yet.
    pub fn new() -> (s: HealthTaskSet)
        ensures
            s.keys@.len() == 0,
    {
        HealthTaskSet { keys: Vec::new() }
    }

    /// Registers a started task under its key.
    pub fn register(&mut self, key: String)
        ensures
            final(self).keys@ == old(self).keys@.push(key),
    {
        self.keys.push(key);
    }

    /// Stops a task: removes the first entry under the key, and says
    /// whether there was one.  A stopped task writes nothing further.
    pub fn stop(&mut self, key: &str) -> (found: bool)
        ensures
            found == (exists|i: int|
                0 <= i < old(self).keys@.len() && (#[trigger] old(self).keys@[i])@ == key@),
            !found ==> final(self).keys@ == old(self).keys@,
            found ==> (exists|i: int|
                {
                    &&& 0 <= i < old(self).keys@.len()
                    &&& (#[trigger] old(self).keys@[i])@ == key@
                    &&& (forall|j: int| 0 <= j < i ==> (#[trigger] old(self).keys@[j])@ != key@)
                    &&& final(self).keys@ == old(self).keys@.remove(i)
                }),
    {
        let ghost pre = self.keys@;
        let mut i: usize = 0;
        while i < self.keys.len()
            invariant
                self.keys@ == pre,
                pre == old(self).keys@,
                i <= pre.len(),
                forall|j: int| 0 <= j < i ==> (#[trigger] pre[j])@ != key@,
            decreases pre.len() - i,
        {
            if str_eq(self.keys[i].as_str(), key) {
                self.keys.remove(i);
                proof {
                    assert(0 <= i < pre.len() && pre[i as int]@ == key@ && self.keys@ == pre.remove(
                        i as int));
                }
                return true;
            }
            i = i + 1;
        }
        false
    }
}

} // verus!

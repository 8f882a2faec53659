//! Session delivery: reading persisted execution events back, in an unbroken sequence, and
//! turning their stored payloads into public events.

use vstd::prelude::*;

use crate::graph_reach::Uid;
use crate::ip_text::{dec_value, is_dec_digit};
use crate::json::{copy_string, get, spec_as_str, spec_get, take_field, JsonValue};
use crate::model::{ArtifactRef, EventEnvelope};
use crate::plan_runtime::RuntimeFailureCode;
use crate::rule_system::{runtime_failure_error, runtime_failure_parts, RuleError, RuleErrorStage};
use crate::text::{chars_of, str_eq, to_owned_string};

verus! {

/// The stream version that must follow `v`.
pub open spec fn next_version(v: u64) -> u64 {
    if v == u64::MAX { u64::MAX } else { (v + 1) as u64 }
}

/// Version `i` follows the version before it (`after` for the first).
pub open spec fn follows(after: u64, versions: Seq<u64>, i: int) -> bool {
    versions[i] == next_version(if i == 0 { after } else { versions[i - 1] })
}

/// Each stored version follows the one before it, the first following `after`.
pub open spec fn continuous_from(after: u64, versions: Seq<u64>) -> bool {
    forall|i: int| 0 <= i < versions.len() ==> #[trigger] follows(after, versions, i)
}

/// A non-retryable error of the given stage, code and message, without diagnostics.
pub open spec fn is_rule_error(
    e: RuleError,
    stage: RuleErrorStage,
    code: Seq<char>,
    message: Seq<char>,
    trace_id: Seq<char>,
) -> bool {
    e.stage == stage && e.code@ == code && e.message@ == message && e.trace_id@ == trace_id
        && !e.retryable && e.diagnostics@.len() == 0
}

/// The error for a hole in a persisted execution stream.
pub open spec fn is_gap_error(e: RuleError, trace_id: Seq<char>) -> bool {
    is_rule_error(
        e,
        RuleErrorStage::Persistence,
        "catch_up_sequence_gap"@,
        "execution catch-up 的持久序列不连续"@,
        trace_id,
    )
}

/// Checks that stored events read after `after_sequence` carry consecutive versions;
/// any hole is refused.
pub fn check_catch_up_sequence(after_sequence: u64, versions: &Vec<u64>, trace_id: &str) -> (r: Result<(), RuleError>)
    ensures
        continuous_from(after_sequence, versions@) ==> r is Ok,
        !continuous_from(after_sequence, versions@) ==> (r matches Err(e) && is_gap_error(e, trace_id@)),
{
    let mut expected = after_sequence;
    let mut i: usize = 0;
    while i < versions.len()
        invariant
            i <= versions@.len(),
            expected == (if i == 0 { after_sequence } else { versions@[i - 1] }),
            forall|j: int| 0 <= j < i ==> #[trigger] follows(after_sequence, versions@, j),
        decreases versions@.len() - i,
    {
        if versions[i] != expected.saturating_add(1) {
            assert(!follows(after_sequence, versions@, i as int));
            return Err(RuleError::new(
                RuleErrorStage::Persistence,
                "catch_up_sequence_gap",
                "execution catch-up 的持久序列不连续",
                trace_id,
                false,
                Vec::new(),
            ));
        }
        expected = versions[i];
        i = i + 1;
    }
    Ok(())
}

/// Consecutive versions are exactly `after + 1, after + 2, ...` (below the saturation
/// point).
pub proof fn law_continuous_versions_count_up(after: u64, versions: Seq<u64>, i: int)
    requires
        continuous_from(after, versions),
        0 <= i < versions.len(),
        after + versions.len() < u64::MAX,
    ensures
        versions[i] == after + i + 1,
    decreases i,
{
    if i > 0 {
        law_continuous_versions_count_up(after, versions, i - 1);
    }
    assert(follows(after, versions, i));
}

/// The digits of a signed number's text: without a leading sign.
pub open spec fn signed_digits(s: Seq<char>) -> Seq<char> {
    if s.len() > 0 && (s[0] == '+' || s[0] == '-') {
        s.drop_first()
    } else {
        s
    }
}

/// What `i64`'s `from_str` makes of `s`: an optional sign, then one or more decimal digits
/// whose value fits in 64 signed bits.
pub open spec fn parse_i64(s: Seq<char>) -> Option<i64> {
    let neg = s.len() > 0 && s[0] == '-';
    let d = signed_digits(s);
    if d.len() > 0 && (forall|i: int| 0 <= i < d.len() ==> is_dec_digit(#[trigger] d[i])) {
        if neg && dec_value(d) <= i64::MAX + 1 {
            Some((-dec_value(d)) as i64)
        } else if !neg && dec_value(d) <= i64::MAX {
            Some(dec_value(d) as i64)
        } else {
            None
        }
    } else {
        None
    }
}

proof fn lemma_dec_value_prefix(d: Seq<char>, k: int)
    requires
        0 <= k <= d.len(),
        forall|j: int| 0 <= j < d.len() ==> is_dec_digit(#[trigger] d[j]),
    ensures
        dec_value(d) >= dec_value(d.subrange(0, k)) >= 0,
    decreases d.len(),
{
    if k == d.len() {
        assert(d.subrange(0, k) =~= d);
        lemma_dec_value_nonneg(d);
    } else {
        lemma_dec_value_prefix(d.drop_last(), k);
        assert(d.drop_last().subrange(0, k) =~= d.subrange(0, k));
    }
}

proof fn lemma_dec_value_nonneg(d: Seq<char>)
    requires
        forall|j: int| 0 <= j < d.len() ==> is_dec_digit(#[trigger] d[j]),
    ensures
        dec_value(d) >= 0,
    decreases d.len(),
{
    if d.len() > 0 {
        lemma_dec_value_nonneg(d.drop_last());
    }
}

/// Parses a stored timestamp as `i64::from_str` does.
pub fn parse_timestamp(s: &str) -> (r: Option<i64>)
    ensures
        r == parse_i64(s@),
{
    let c = chars_of(s);
    let neg = c.len() > 0 && c[0] == '-';
    let start: usize = if c.len() > 0 && (c[0] == '+' || c[0] == '-') { 1 } else { 0 };
    let ghost d = signed_digits(s@);
    proof {
        assert(c@.subrange(start as int, c@.len() as int) =~= d);
    }
    if start >= c.len() {
        return None;
    }
    let limit: u64 = if neg { 9223372036854775808 } else { 9223372036854775807 };
    let mut value: u64 = 0;
    let mut i: usize = start;
    while i < c.len()
        invariant
            c@ == s@,
            start <= i <= c@.len(),
            d == c@.subrange(start as int, c@.len() as int),
            d == signed_digits(s@),
            neg == (s@.len() > 0 && s@[0] == '-'),
            limit == (if neg { 9223372036854775808u64 } else { 9223372036854775807u64 }),
            forall|j: int| 0 <= j < i - start ==> is_dec_digit(#[trigger] d[j]),
            value == dec_value(d.subrange(0, i - start)),
            value <= limit,
        decreases c@.len() - i,
    {
        let ch = c[i];
        if !('0' <= ch && ch <= '9') {
            assert(!is_dec_digit(d[i - start]));
            return None;
        }
        proof {
            assert(d.subrange(0, i - start + 1).drop_last() =~= d.subrange(0, i - start));
            assert(d[i - start] == ch);
        }
        let digit: u64 = ((ch as u32) - ('0' as u32)) as u64;
        if value > (limit - digit) / 10 {
            proof {
                assert(dec_value(d.subrange(0, i - start + 1)) > limit) by (nonlinear_arith)
                    requires
                        dec_value(d.subrange(0, i - start + 1)) == value * 10 + digit,
                        value > (limit - digit) / 10,
                        digit <= 9,
                        digit <= limit,
                ;
                if forall|j: int| 0 <= j < d.len() ==> is_dec_digit(#[trigger] d[j]) {
                    lemma_dec_value_prefix(d, i - start + 1);
                }
            }
            return None;
        }
        proof {
            assert(value * 10 + digit <= limit) by (nonlinear_arith)
                requires
                    value <= (limit - digit) / 10,
                    digit <= 9,
                    digit <= limit,
            ;
        }
        value = value * 10 + digit;
        i = i + 1;
    }
    proof {
        assert(d.subrange(0, d.len() as int) =~= d);
    }
    if neg {
        if value == 9223372036854775808 {
            Some(-9223372036854775807i64 - 1)
        } else {
            Some(-(value as i64))
        }
    } else {
        Some(value as i64)
    }
}

/// A state change of an execution session that callers see.
#[derive(Debug, PartialEq, Eq)]
pub enum ExecutionEventKind {
    /// The start event was committed.
    Started,
    /// A diagnostic without sensitive payload was committed.
    Diagnostic {
        /// Stable diagnostic code.
        code: String,
        /// Short message safe to show.
        message: String,
    },
    /// The archive capture of a live effect was committed.
    EffectCaptured {
        /// Execution-local effect ID.
        effect_id: Uid,
        /// Safe references to the persisted body and secret artifacts.
        artifact_refs: Vec<ArtifactRef>,
        /// BLAKE3 hex of the effect output.
        output_hash: String,
    },
    /// A media graph delta and its projection were committed together.
    DeltaCommitted {
        /// Global revision assigned by the store.
        global_revision: u64,
        /// Source-local revision of the execution stream.
        source_revision: u64,
        /// The committed delta, as stored.
        delta: JsonValue,
    },
    /// The execution ended normally.
    Completed,
    /// The execution ended with a safe error.
    Failed {
        /// The error raised after the start.
        error: RuleError,
    },
    /// Cancellation was observed; no new effect is scheduled.
    Cancelled,
}

/// An execution event read back from the store.
#[derive(Debug, PartialEq, Eq)]
pub struct ExecutionEvent {
    /// The execution.
    pub execution_id: Uid,
    /// Consecutive sequence within the execution stream.
    pub sequence: u64,
    /// Safe trace ID.
    pub trace_id: String,
    /// UTC epoch milliseconds at which the event was persisted.
    pub occurred_at_ms: i64,
    /// What happened.
    pub kind: ExecutionEventKind,
}

/// Text stored under `key` of a payload, when it is a string.
pub open spec fn payload_text(payload: JsonValue, key: Seq<char>) -> Option<Seq<char>> {
    spec_as_str(spec_get(payload, key))
}

/// The text, or `default` where there is none.
pub open spec fn text_or(text: Option<Seq<char>>, default: Seq<char>) -> Seq<char> {
    match text {
        Some(t) => t,
        None => default,
    }
}

/// The kind named by a stored payload; `"unknown"` where it names none.
pub open spec fn payload_kind(payload: JsonValue) -> Seq<char> {
    text_or(payload_text(payload, "kind"@), "unknown"@)
}

/// What a terminal payload maps to.
pub open spec fn terminal_outcome(
    payload: JsonValue,
    trace_id: Seq<char>,
    r: Result<ExecutionEventKind, RuleError>,
) -> bool {
    let status = payload_text(payload, "status"@);
    if status == Some("completed"@) {
        r == Ok::<ExecutionEventKind, RuleError>(ExecutionEventKind::Completed)
    } else if status == Some("cancelled"@) {
        r == Ok::<ExecutionEventKind, RuleError>(ExecutionEventKind::Cancelled)
    } else if status == Some("failed"@) || status == Some("incomplete"@) {
        r matches Ok(ExecutionEventKind::Failed { error }) && is_rule_error(
            error,
            RuleErrorStage::Execution,
            "execution_failed"@,
            "execution 以失败终态结束"@,
            trace_id,
        )
    } else {
        r matches Err(e) && is_rule_error(
            e,
            RuleErrorStage::Persistence,
            "terminal_payload_invalid"@,
            "持久 execution terminal 无法识别"@,
            trace_id,
        )
    }
}

/// A persistence error with the given code and message.
pub open spec fn is_persistence_error(e: RuleError, code: Seq<char>, message: Seq<char>, trace_id: Seq<char>) -> bool {
    is_rule_error(e, RuleErrorStage::Persistence, code, message, trace_id)
}

/// What the payload of a stored event maps to, given what its `effect_id` text parses to
/// as a UUID.
pub open spec fn event_kind_outcome(
    env: EventEnvelope,
    trace_id: Seq<char>,
    effect_uuid: Option<u128>,
    r: Result<ExecutionEventKind, RuleError>,
) -> bool {
    let p = env.payload;
    let kind = payload_kind(p);
    if kind == "started"@ || kind == "replay_started"@ {
        r == Ok::<ExecutionEventKind, RuleError>(ExecutionEventKind::Started)
    } else if kind == "diagnostic"@ {
        r matches Ok(ExecutionEventKind::Diagnostic { code, message })
            && code@ == text_or(payload_text(p, "code"@), "execution_diagnostic"@)
            && message@ == text_or(payload_text(p, "message"@), "execution 诊断"@)
    } else if kind == "effect_captured"@ {
        match payload_text(p, "effect_id"@) {
            None => r matches Err(e) && is_persistence_error(
                e,
                "effect_payload_invalid"@,
                "持久 effect event 缺少 effect ID"@,
                trace_id,
            ),
            Some(_) => match effect_uuid {
                None => r matches Err(e) && is_persistence_error(
                    e,
                    "effect_payload_invalid"@,
                    "持久 effect event 的 effect ID 无效"@,
                    trace_id,
                ),
                Some(id) => r matches Ok(ExecutionEventKind::EffectCaptured { effect_id, artifact_refs, output_hash })
                    && effect_id == id && artifact_refs == env.artifact_refs
                    && output_hash@ == text_or(payload_text(p, "output_hash"@), ""@),
            },
        }
    } else if kind == "delta"@ {
        match spec_get(p, "delta"@) {
            None => r matches Err(e) && is_persistence_error(
                e,
                "delta_payload_missing"@,
                "持久 Delta event 缺少标准增量"@,
                trace_id,
            ),
            Some(d) => r == Ok::<ExecutionEventKind, RuleError>(ExecutionEventKind::DeltaCommitted {
                global_revision: env.global_seq,
                source_revision: env.stream_version,
                delta: d,
            }),
        }
    } else if kind == "terminal"@ {
        terminal_outcome(p, trace_id, r)
    } else {
        r matches Ok(ExecutionEventKind::Diagnostic { code, message })
            && code@ == "unknown_execution_event"@
            && message@ == "遇到未知的持久 execution event"@
    }
}

/// What a stored event maps to, given what its `effect_id` text parses to as a UUID.
pub open spec fn stored_event_outcome(
    env: EventEnvelope,
    execution_id: Uid,
    trace_id: Seq<char>,
    effect_uuid: Option<u128>,
    r: Result<ExecutionEvent, RuleError>,
) -> bool {
    match parse_i64(env.occurred_at@) {
        None => r matches Err(e) && is_persistence_error(
            e,
            "event_timestamp_invalid"@,
            "持久 execution event 的时间格式无效"@,
            trace_id,
        ),
        Some(ms) => match r {
            Ok(ev) => ev.execution_id == execution_id && ev.sequence == env.stream_version
                && ev.trace_id@ == env.trace_id@ && ev.occurred_at_ms == ms
                && event_kind_outcome(env, trace_id, effect_uuid, Ok(ev.kind)),
            Err(e) => event_kind_outcome(env, trace_id, effect_uuid, Err(e)),
        },
    }
}

/// The UUID that `uuid::Uuid::parse_str` reads from a text, as its 128-bit value; `None`
/// where it refuses the text.
pub uninterp spec fn parsed_uuid(text: Seq<char>) -> Option<u128>;

/// Calls `uuid::Uuid::parse_str` and returns the UUID's 128-bit value; the result is the
/// named result [`parsed_uuid`] of the text (which forms the crate accepts is not restated).
#[verifier::external_body]
fn parse_uuid(text: &str) -> (r: Option<u128>)
    ensures
        r == parsed_uuid(text@),
{
    match uuid::Uuid::parse_str(text) {
        Ok(id) => Some(id.as_u128()),
        Err(_) => None,
    }
}

/// What the `effect_id` text of a payload parses to as a UUID.
pub open spec fn payload_uuid(payload: JsonValue) -> Option<u128> {
    match payload_text(payload, "effect_id"@) {
        Some(t) => parsed_uuid(t),
        None => None,
    }
}

/// The text stored under `key`, when it is a string.
pub fn string_payload(payload: &JsonValue, key: &str) -> (r: Option<String>)
    ensures
        match r {
            Some(s) => payload_text(*payload, key@) == Some(s@),
            None => payload_text(*payload, key@) is None,
        },
{
    match get(payload, key) {
        Some(JsonValue::String(s)) => Some(copy_string(s)),
        _ => None,
    }
}

fn persistence_error(code: &str, message: &str, trace_id: &str) -> (e: RuleError)
    ensures
        is_persistence_error(e, code@, message@, trace_id@),
{
    RuleError::new(RuleErrorStage::Persistence, code, message, trace_id, false, Vec::new())
}

/// Maps the status of a terminal payload: completed, cancelled, or failed (also for an
/// incomplete run); any other status is refused.
pub fn terminal_kind(payload: &JsonValue, trace_id: &str) -> (r: Result<ExecutionEventKind, RuleError>)
    ensures
        terminal_outcome(*payload, trace_id@, r),
{
    match string_payload(payload, "status") {
        Some(status) => {
            if str_eq(status.as_str(), "completed") {
                Ok(ExecutionEventKind::Completed)
            } else if str_eq(status.as_str(), "cancelled") {
                Ok(ExecutionEventKind::Cancelled)
            } else if str_eq(status.as_str(), "failed") || str_eq(status.as_str(), "incomplete") {
                Ok(ExecutionEventKind::Failed {
                    error: RuleError::new(
                        RuleErrorStage::Execution,
                        "execution_failed",
                        "execution 以失败终态结束",
                        trace_id,
                        false,
                        Vec::new(),
                    ),
                })
            } else {
                Err(persistence_error("terminal_payload_invalid", "持久 execution terminal 无法识别", trace_id))
            }
        },
        None => Err(persistence_error("terminal_payload_invalid", "持久 execution terminal 无法识别", trace_id)),
    }
}


fn text_or_default(text: Option<String>, default: &str) -> (r: String)
    ensures
        r@ == text_or(
            match text {
                Some(t) => Some(t@),
                None => None,
            },
            default@,
        ),
{
    match text {
        Some(t) => t,
        None => to_owned_string(default),
    }
}

/// Maps a stored event to the public event, given what the payload's `effect_id` text
/// parses to as a UUID (used only for a captured effect).
pub fn event_from_stored(
    stored: EventEnvelope,
    execution_id: Uid,
    trace_id: &str,
    effect_uuid: Option<u128>,
) -> (r: Result<ExecutionEvent, RuleError>)
    ensures
        stored_event_outcome(stored, execution_id, trace_id@, effect_uuid, r),
{
    let ghost env = stored;
    let occurred_at_ms = match parse_timestamp(stored.occurred_at.as_str()) {
        Some(ms) => ms,
        None => {
            return Err(persistence_error(
                "event_timestamp_invalid",
                "持久 execution event 的时间格式无效",
                trace_id,
            ));
        },
    };
    let kind = text_or_default(string_payload(&stored.payload, "kind"), "unknown");
    let EventEnvelope { global_seq, stream_version, trace_id: stored_trace, payload, artifact_refs, .. } =
        stored;
    assert(payload == env.payload && kind@ == payload_kind(env.payload));
    let event_kind = if str_eq(kind.as_str(), "started") || str_eq(kind.as_str(), "replay_started") {
        ExecutionEventKind::Started
    } else if str_eq(kind.as_str(), "diagnostic") {
        ExecutionEventKind::Diagnostic {
            code: text_or_default(string_payload(&payload, "code"), "execution_diagnostic"),
            message: text_or_default(string_payload(&payload, "message"), "execution 诊断"),
        }
    } else if str_eq(kind.as_str(), "effect_captured") {
        match string_payload(&payload, "effect_id") {
            None => {
                return Err(persistence_error(
                    "effect_payload_invalid",
                    "持久 effect event 缺少 effect ID",
                    trace_id,
                ));
            },
            Some(_) => match effect_uuid {
                None => {
                    return Err(persistence_error(
                        "effect_payload_invalid",
                        "持久 effect event 的 effect ID 无效",
                        trace_id,
                    ));
                },
                Some(id) => ExecutionEventKind::EffectCaptured {
                    effect_id: id,
                    artifact_refs,
                    output_hash: text_or_default(string_payload(&payload, "output_hash"), ""),
                },
            },
        }
    } else if str_eq(kind.as_str(), "delta") {
        match take_field(payload, "delta") {
            None => {
                return Err(persistence_error(
                    "delta_payload_missing",
                    "持久 Delta event 缺少标准增量",
                    trace_id,
                ));
            },
            Some(delta) => ExecutionEventKind::DeltaCommitted {
                global_revision: global_seq,
                source_revision: stream_version,
                delta,
            },
        }
    } else if str_eq(kind.as_str(), "terminal") {
        match terminal_kind(&payload, trace_id) {
            Ok(k) => k,
            Err(e) => {
                return Err(e);
            },
        }
    } else {
        ExecutionEventKind::Diagnostic {
            code: to_owned_string("unknown_execution_event"),
            message: to_owned_string("遇到未知的持久 execution event"),
        }
    };
    Ok(ExecutionEvent {
        execution_id,
        sequence: stream_version,
        trace_id: stored_trace,
        occurred_at_ms,
        kind: event_kind,
    })
}

/// Maps a persisted execution event to the public event: the stored timestamp must parse,
/// and the payload's kind decides the event (see [`event_kind_outcome`]).
pub fn map_stored_event(stored: EventEnvelope, execution_id: Uid, trace_id: &str) -> (r: Result<
    ExecutionEvent,
    RuleError,
>)
    ensures
        stored_event_outcome(stored, execution_id, trace_id@, payload_uuid(stored.payload), r),
{
    let effect_uuid = match string_payload(&stored.payload, "effect_id") {
        Some(text) => parse_uuid(text.as_str()),
        None => None,
    };
    event_from_stored(stored, execution_id, trace_id, effect_uuid)
}


/// The stream versions of stored events.
pub open spec fn versions_of(stored: Seq<EventEnvelope>) -> Seq<u64> {
    stored.map_values(|e: EventEnvelope| e.stream_version)
}

/// Whether mapping a stored event to the public event fails (see
/// [`stored_event_outcome`]): an unreadable timestamp, a captured effect without a
/// readable effect ID, a delta without its delta, or a terminal with an unknown status.
pub open spec fn mapping_fails(env: EventEnvelope, effect_uuid: Option<u128>) -> bool {
    let p = env.payload;
    let kind = payload_kind(p);
    let status = payload_text(p, "status"@);
    if parse_i64(env.occurred_at@) is None {
        true
    } else if kind == "started"@ || kind == "replay_started"@ || kind == "diagnostic"@ {
        false
    } else if kind == "effect_captured"@ {
        payload_text(p, "effect_id"@) is None || effect_uuid is None
    } else if kind == "delta"@ {
        spec_get(p, "delta"@) is None
    } else if kind == "terminal"@ {
        !(status == Some("completed"@) || status == Some("cancelled"@) || status == Some("failed"@) || status
            == Some("incomplete"@))
    } else {
        false
    }
}

/// Catch-up stops at stored event `k` with `e`: every earlier event follows its
/// predecessor and maps; event `k` leaves a hole in the versions (the gap error), or
/// follows but fails to map with `e`.
pub open spec fn catch_up_fails_at(
    after: u64,
    stored: Seq<EventEnvelope>,
    execution_id: Uid,
    trace_id: Seq<char>,
    k: int,
    e: RuleError,
) -> bool {
    &&& 0 <= k < stored.len()
    &&& forall|j: int|
        0 <= j < k ==> #[trigger] follows(after, versions_of(stored), j) && !mapping_fails(
            stored[j],
            payload_uuid(stored[j].payload),
        )
    &&& if follows(after, versions_of(stored), k) {
        stored_event_outcome(stored[k], execution_id, trace_id, payload_uuid(stored[k].payload), Err(e))
    } else {
        is_gap_error(e, trace_id)
    }
}

proof fn lemma_outcome_side(
    env: EventEnvelope,
    execution_id: Uid,
    trace_id: Seq<char>,
    effect_uuid: Option<u128>,
    r: Result<ExecutionEvent, RuleError>,
)
    requires
        stored_event_outcome(env, execution_id, trace_id, effect_uuid, r),
    ensures
        r is Err <==> mapping_fails(env, effect_uuid),
{
}

/// Reads an execution stream back from the events stored after `after_sequence`, in
/// stored order: each must follow the one before it with no hole, and each is mapped to
/// the public event. The first event that leaves a hole or fails to map stops the
/// catch-up with its error; only events read back this way are delivered.
pub fn catch_up_execution(after_sequence: u64, stored: Vec<EventEnvelope>, execution_id: Uid, trace_id: &str) -> (r:
    Result<Vec<ExecutionEvent>, RuleError>)
    ensures
        r is Ok ==> continuous_from(after_sequence, versions_of(stored@)) && r->Ok_0@.len() == stored@.len(),
        r is Ok ==> forall|i: int|
            0 <= i < stored@.len() ==> stored_event_outcome(
                stored@[i],
                execution_id,
                trace_id@,
                payload_uuid(stored@[i].payload),
                Ok(#[trigger] r->Ok_0@[i]),
            ),
        r is Err ==> exists|k: int|
            #![trigger stored@[k]]
            catch_up_fails_at(after_sequence, stored@, execution_id, trace_id@, k, r->Err_0),
{
    let ghost all = stored@;
    let total = stored.len();
    proof {
        assert(all == stored@);
    }
    let mut rest = stored;
    let mut events: Vec<ExecutionEvent> = Vec::new();
    let mut expected = after_sequence;
    let mut i: usize = 0;
    proof {
        assert(all.skip(0) =~= all);
    }
    while rest.len() > 0
        invariant
            i + rest@.len() == all.len(),
            all.len() == total,
            all == stored@,
            rest@ == all.skip(i as int),
            events@.len() == i,
            expected == (if i == 0 { after_sequence } else { all[i - 1].stream_version }),
            forall|j: int|
                0 <= j < i ==> #[trigger] follows(after_sequence, versions_of(all), j) && !mapping_fails(
                    all[j],
                    payload_uuid(all[j].payload),
                ),
            forall|j: int|
                0 <= j < i ==> stored_event_outcome(
                    all[j],
                    execution_id,
                    trace_id@,
                    payload_uuid(all[j].payload),
                    Ok(#[trigger] events@[j]),
                ),
        decreases rest@.len(),
    {
        let env = rest.remove(0);
        proof {
            assert(env == all[i as int]);
            assert(rest@ =~= all.skip(i + 1));
            assert(versions_of(all)[i as int] == env.stream_version);
            if i > 0 {
                assert(versions_of(all)[i - 1] == all[i - 1].stream_version);
            }
        }
        if env.stream_version != expected.saturating_add(1) {
            let e = RuleError::new(
                RuleErrorStage::Persistence,
                "catch_up_sequence_gap",
                "execution catch-up 的持久序列不连续",
                trace_id,
                false,
                Vec::new(),
            );
            proof {
                assert(!follows(after_sequence, versions_of(all), i as int));
                assert(is_gap_error(e, trace_id@));
                assert(0 <= i < all.len());
                assert(forall|j: int|
                    0 <= j < i ==> #[trigger] follows(after_sequence, versions_of(all), j) && !mapping_fails(
                        all[j],
                        payload_uuid(all[j].payload),
                    ));
                assert(catch_up_fails_at(after_sequence, all, execution_id, trace_id@, i as int, e));
            }
            return Err(e);
        }
        let version = env.stream_version;
        match map_stored_event(env, execution_id, trace_id) {
            Err(e) => {
                proof {
                    assert(follows(after_sequence, versions_of(all), i as int));
                    assert(catch_up_fails_at(after_sequence, all, execution_id, trace_id@, i as int, e));
                    }
                return Err(e);
            },
            Ok(event) => {
                proof {
                    lemma_outcome_side(
                        all[i as int],
                        execution_id,
                        trace_id@,
                        payload_uuid(all[i as int].payload),
                        Ok(event),
                    );
                    assert(follows(after_sequence, versions_of(all), i as int));
                    assert(!mapping_fails(all[i as int], payload_uuid(all[i as int].payload)));
                    assert forall|j: int|
                        0 <= j < i + 1 implies #[trigger] follows(after_sequence, versions_of(all), j)
                            && !mapping_fails(all[j], payload_uuid(all[j].payload)) by {
                        if j < i {
                            assert(follows(after_sequence, versions_of(all), j));
                        }
                    }
                }
                events.push(event);
            },
        }
        expected = version;
        i = i + 1;
    }
    proof {
        assert forall|j: int| 0 <= j < all.len() implies #[trigger] follows(after_sequence, versions_of(all), j) by {
            assert(follows(after_sequence, versions_of(all), j) && !mapping_fails(all[j], payload_uuid(all[j].payload)));
        }
    }
    Ok(events)
}

/// Events read back from a stream numbered without a hole carry the sequences
/// `after + 1, after + 2, ...` and so strictly increase (below the saturation point).
pub proof fn law_caught_up_sequences_increase(
    after: u64,
    stored: Seq<EventEnvelope>,
    events: Seq<ExecutionEvent>,
    execution_id: Uid,
    trace_id: Seq<char>,
)
    requires
        continuous_from(after, versions_of(stored)),
        events.len() == stored.len(),
        forall|i: int|
            0 <= i < stored.len() ==> stored_event_outcome(
                stored[i],
                execution_id,
                trace_id,
                payload_uuid(stored[i].payload),
                Ok(#[trigger] events[i]),
            ),
        after + stored.len() < u64::MAX,
    ensures
        forall|i: int| 0 <= i < events.len() ==> #[trigger] events[i].sequence == after + i + 1,
        forall|i: int, j: int| 0 <= i < j < events.len() ==> events[i].sequence < events[j].sequence,
{
    assert forall|i: int| 0 <= i < events.len() implies #[trigger] events[i].sequence == after + i + 1 by {
        law_continuous_versions_count_up(after, versions_of(stored), i);
        assert(stored_event_outcome(stored[i], execution_id, trace_id, payload_uuid(stored[i].payload), Ok(events[i])));
        assert(versions_of(stored)[i] == stored[i].stream_version);
        assert(parse_i64(stored[i].occurred_at@) is Some);
    }
    assert forall|i: int, j: int| 0 <= i < j < events.len() implies events[i].sequence < events[j].sequence by {
        assert(events[i].sequence == after + i + 1);
        assert(events[j].sequence == after + j + 1);
    }
}

/// Status a finished execution is stored with.
#[derive(Debug, Clone, Copy, PartialEq, Eq, Structural)]
pub enum ExecutionStatus {
    /// Ended normally.
    Completed,
    /// Ended by cancellation.
    Cancelled,
    /// Ended by a failure.
    Failed,
}

/// An event of the plan runtime, as the session reacts to it.
#[derive(Debug, Clone, Copy, PartialEq, Eq, Structural)]
pub enum RuntimeEventTag {
    /// The run started.
    Started,
    /// An effect was replayed from the archive.
    EffectReplayed,
    /// A live effect was captured durably.
    EffectCaptured,
    /// A mapper produced a delta.
    DeltaProduced,
    /// The run completed.
    Completed,
    /// The run was cancelled.
    Cancelled,
    /// The run failed with the given category.
    Failed(RuntimeFailureCode),
}

/// What the session does about a runtime event.
#[derive(Debug, Clone, PartialEq, Eq)]
pub enum SessionAction {
    /// Nothing to persist.
    Ignore,
    /// Deliver the events persisted since the last delivery.
    FlushPersisted,
    /// Commit the delta with its projection, then deliver.
    CommitDelta,
    /// Store the execution as finished with the status, then deliver.
    Finish(ExecutionStatus),
    /// Persist the failure as a diagnostic, then deliver.
    PersistFailure(RuleError),
}

/// What the session does after an action: go on, stop, or fail the run with the error.
#[derive(Debug, Clone, PartialEq, Eq)]
pub enum SessionNext {
    /// Wait for the next runtime event.
    Continue,
    /// The terminal event was handled.
    Stop,
    /// Persist the error as the run's failure and stop.
    FailRun(RuleError),
}

/// Whether a runtime event ends the run.
pub open spec fn is_terminal_event(event: RuntimeEventTag) -> bool {
    event is Completed || event is Cancelled || event is Failed
}

/// The session's reaction to a runtime event, and whether the event is terminal: start
/// and replay events need nothing; a capture is delivered; a delta is committed; a
/// completion or cancellation finishes the execution; a failure is persisted as its safe
/// error.
pub fn session_action(event: RuntimeEventTag, trace_id: &str) -> (r: (SessionAction, bool))
    ensures
        r.1 == is_terminal_event(event),
        event is Started || event is EffectReplayed ==> r.0 == SessionAction::Ignore,
        event is EffectCaptured ==> r.0 == SessionAction::FlushPersisted,
        event is DeltaProduced ==> r.0 == SessionAction::CommitDelta,
        event is Completed ==> r.0 == SessionAction::Finish(ExecutionStatus::Completed),
        event is Cancelled ==> r.0 == SessionAction::Finish(ExecutionStatus::Cancelled),
        event matches RuntimeEventTag::Failed(code) ==> (r.0 matches SessionAction::PersistFailure(e) && (
        e.stage, e.code@, e.message@) == runtime_failure_parts(code) && e.trace_id@ == trace_id@),
{
    match event {
        RuntimeEventTag::Started | RuntimeEventTag::EffectReplayed => (SessionAction::Ignore, false),
        RuntimeEventTag::EffectCaptured => (SessionAction::FlushPersisted, false),
        RuntimeEventTag::DeltaProduced => (SessionAction::CommitDelta, false),
        RuntimeEventTag::Completed => (SessionAction::Finish(ExecutionStatus::Completed), true),
        RuntimeEventTag::Cancelled => (SessionAction::Finish(ExecutionStatus::Cancelled), true),
        RuntimeEventTag::Failed(code) => (SessionAction::PersistFailure(runtime_failure_error(code, trace_id)), true),
    }
}

/// After an action: an error fails the run; a handled terminal event stops the session;
/// otherwise it goes on.
pub fn session_next(result: Result<(), RuleError>, terminal: bool) -> (r: SessionNext)
    ensures
        match result {
            Err(e) => r == SessionNext::FailRun(e),
            Ok(()) => r == (if terminal {
                SessionNext::Stop
            } else {
                SessionNext::Continue
            }),
        },
{
    match result {
        Err(e) => SessionNext::FailRun(e),
        Ok(()) => if terminal {
            SessionNext::Stop
        } else {
            SessionNext::Continue
        },
    }
}

/// The failure recorded when the runtime's event stream ends: none after a terminal event;
/// otherwise the run ended without one.
pub fn stream_end_error(terminal_observed: bool, trace_id: &str) -> (r: Option<RuleError>)
    ensures
        terminal_observed ==> r is None,
        !terminal_observed ==> (r matches Some(e) && is_rule_error(
            e,
            RuleErrorStage::Execution,
            "runtime_stream_ended"@,
            "运行时在未发送终态前结束"@,
            trace_id@,
        )),
{
    if terminal_observed {
        None
    } else {
        Some(RuleError::new(
            RuleErrorStage::Execution,
            "runtime_stream_ended",
            "运行时在未发送终态前结束",
            trace_id,
            false,
            Vec::new(),
        ))
    }
}

} // verus!

//! QuickJS effect rules: how a script is prepared from its template input, how engine
//! failures are classified, and how host calls and results become archivable output.

use vstd::prelude::*;

use crate::effect::{EffectError, EffectErrorCode, EffectInput, QuickJsErrorKind, QuickJsOutput};
use crate::http_util::{decimal, u32_to_decimal};
use crate::ip_text::{dec_value, is_dec_digit};
use crate::model::IntentInput;
use crate::text::{chars_of, replace_all, str_replace, string_from_chars, to_owned_string};
use crate::witness::{QuickJsHostCall, QuickJsHostCallWitness};

verus! {

/// Errors of the JavaScript node.
#[derive(Debug, Clone, PartialEq, Eq)]
pub enum JsError {
    /// The runtime could not be created.
    RuntimeCreate(String),
    /// The context could not be created.
    ContextCreate(String),
    /// The script failed.
    EvalError(String),
    /// The script ran past the time limit, in milliseconds.
    Timeout(u64),
    /// The run was cancelled from outside.
    Cancelled,
    /// The watchdog could not be cleaned up.
    Watchdog,
    /// A capability was refused.
    CapabilityBlocked(String),
}

/// The QuickJS effect adapter. Every engine object lives and dies on the blocking worker
/// that runs the script; the watchdog is joined before the worker returns.
#[derive(Debug, Clone, Copy, PartialEq, Eq, Structural)]
pub struct QuickJsEffectAdapter;

/// Memory limit of a script run, in bytes.
pub const JS_MEMORY_LIMIT: usize = 16777216;

/// Time limit of a script run, in milliseconds.
pub const JS_TIMEOUT_MS: u64 = 5000;

/// Escape of one character inside a JavaScript string literal.
pub open spec fn js_escape_char(c: char) -> Seq<char> {
    if c == '\\' {
        seq!['\\', '\\']
    } else if c == '\'' {
        seq!['\\', '\'']
    } else if c == '"' {
        seq!['\\', '"']
    } else if c == '/' {
        seq!['\\', '/']
    } else if c == '\n' {
        seq!['\\', 'n']
    } else if c == '\r' {
        seq!['\\', 'r']
    } else if c == '\t' {
        seq!['\\', 't']
    } else {
        seq![c]
    }
}

/// `s` escaped for a JavaScript string literal: backslash, both quotes, `/`, line feed,
/// carriage return and tab are escaped; everything else is kept.
pub open spec fn js_escape(s: Seq<char>) -> Seq<char>
    decreases s.len(),
{
    if s.len() == 0 {
        Seq::empty()
    } else {
        js_escape(s.drop_last()) + js_escape_char(s.last())
    }
}

/// Escapes `s` for use inside a JavaScript string literal, against injection.
pub fn escape_js_string(s: &str) -> (out: String)
    ensures
        out@ == js_escape(s@),
{
    let c = chars_of(s);
    let mut out: Vec<char> = Vec::new();
    let mut i: usize = 0;
    while i < c.len()
        invariant
            c@ == s@,
            i <= c@.len(),
            out@ == js_escape(c@.subrange(0, i as int)),
        decreases c@.len() - i,
    {
        let ch = c[i];
        if ch == '\\' {
            out.push('\\');
            out.push('\\');
        } else if ch == '\'' {
            out.push('\\');
            out.push('\'');
        } else if ch == '"' {
            out.push('\\');
            out.push('"');
        } else if ch == '/' {
            out.push('\\');
            out.push('/');
        } else if ch == '\n' {
            out.push('\\');
            out.push('n');
        } else if ch == '\r' {
            out.push('\\');
            out.push('r');
        } else if ch == '\t' {
            out.push('\\');
            out.push('t');
        } else {
            out.push(ch);
        }
        proof {
            assert(c@.subrange(0, i + 1).drop_last() =~= c@.subrange(0, i as int));
            assert(out@ =~= js_escape(c@.subrange(0, i as int)) + js_escape_char(ch));
        }
        i = i + 1;
    }
    proof {
        assert(c@.subrange(0, c@.len() as int) =~= c@);
    }
    string_from_chars(&out)
}

/// What `u32`'s `from_str` makes of `s`: an optional `+`, then one or more decimal digits
/// whose value fits in 32 bits.
pub open spec fn parse_u32(s: Seq<char>) -> Option<u32> {
    let d = unsigned_digits(s);
    if d.len() > 0 && (forall|i: int| 0 <= i < d.len() ==> is_dec_digit(#[trigger] d[i])) && dec_value(d) <= u32::MAX {
        Some(dec_value(d) as u32)
    } else {
        None
    }
}

/// The digits of an unsigned number's text: without a leading `+`.
pub open spec fn unsigned_digits(s: Seq<char>) -> Seq<char> {
    if s.len() > 0 && s[0] == '+' {
        s.drop_first()
    } else {
        s
    }
}

/// Parses a page number as `u32::from_str` does.
pub fn parse_page(s: &str) -> (r: Option<u32>)
    ensures
        r == parse_u32(s@),
{
    let c = chars_of(s);
    let start: usize = if c.len() > 0 && c[0] == '+' { 1 } else { 0 };
    let ghost d = unsigned_digits(s@);
    proof {
        assert(c@.subrange(start as int, c@.len() as int) =~= d);
    }
    if start >= c.len() {
        return None;
    }
    let mut value: u64 = 0;
    let mut i: usize = start;
    while i < c.len()
        invariant
            c@ == s@,
            start <= i <= c@.len(),
            d == c@.subrange(start as int, c@.len() as int),
            d == unsigned_digits(s@),
            forall|j: int| 0 <= j < i - start ==> is_dec_digit(#[trigger] d[j]),
            value == dec_value(d.subrange(0, i - start)),
            value <= u32::MAX,
        decreases c@.len() - i,
    {
        let ch = c[i];
        if !('0' <= ch && ch <= '9') {
            assert(!is_dec_digit(d[i - start]));
            return None;
        }
        proof {
            assert(d.subrange(0, i - start + 1).drop_last() =~= d.subrange(0, i - start));
            assert(d[i - start] == ch);
        }
        value = value * 10 + ((ch as u32) - ('0' as u32)) as u64;
        if value > 4294967295 {
            proof {
                if forall|j: int| 0 <= j < d.len() ==> is_dec_digit(#[trigger] d[j]) {
                    lemma_dec_value_grows(d, i - start + 1);
                }
            }
            return None;
        }
        i = i + 1;
    }
    proof {
        assert(d.subrange(0, d.len() as int) =~= d);
    }
    Some(value as u32)
}

/// Digits are worth at least nothing.
proof fn lemma_dec_value_nonneg(d: Seq<char>)
    requires
        forall|j: int| 0 <= j < d.len() ==> is_dec_digit(#[trigger] d[j]),
    ensures
        dec_value(d) >= 0,
    decreases d.len(),
{
    if d.len() > 0 {
        lemma_dec_value_nonneg(d.drop_last());
    }
}

/// A longer run of digits is worth at least as much as its prefix.
proof fn lemma_dec_value_grows(d: Seq<char>, k: int)
    requires
        0 <= k <= d.len(),
        forall|j: int| 0 <= j < d.len() ==> is_dec_digit(#[trigger] d[j]),
    ensures
        dec_value(d) >= dec_value(d.subrange(0, k)),
    decreases d.len(),
{
    if k == d.len() {
        assert(d.subrange(0, k) =~= d);
    } else {
        let p = d.drop_last();
        lemma_dec_value_grows(p, k);
        lemma_dec_value_nonneg(p);
        assert(p.subrange(0, k) =~= d.subrange(0, k));
    }
}

/// The page and key a script's template receives from its input.
pub open spec fn template_input(input: EffectInput) -> (Option<u32>, Option<Seq<char>>) {
    match input {
        EffectInput::Intent(IntentInput::Page(v)) => (parse_u32(v@), Some(v@)),
        EffectInput::Intent(IntentInput::Query(v)) => (Some(1), Some(v@)),
        EffectInput::Intent(IntentInput::ItemId(v)) => (Some(1), Some(v@)),
        EffectInput::Intent(IntentInput::UnitId(v)) => (Some(1), Some(v@)),
        EffectInput::Intent(IntentInput::ActionId(v)) => (Some(1), Some(v@)),
        EffectInput::Intent(IntentInput::Opaque(v)) => (Some(1), Some(v@)),
        _ => (Some(1), None),
    }
}

/// The text an intent input carries: every kind but "no input" carries one.
pub open spec fn intent_text(input: IntentInput) -> Option<Seq<char>> {
    match input {
        IntentInput::Query(v) | IntentInput::ItemId(v) | IntentInput::UnitId(v) | IntentInput::ActionId(v)
        | IntentInput::Page(v) | IntentInput::Opaque(v) => Some(v@),
        IntentInput::NoInput => None,
    }
}

/// A script's `{{key}}` is the text its intent input carries, whatever kind of input
/// carries it; with no intent text (no input, or an upstream output) there is no key.
/// Every input but a page one starts at page 1.
pub proof fn law_template_key_is_the_input_text(input: EffectInput)
    ensures
        input matches EffectInput::Intent(i) ==> template_input(input).1 == intent_text(i),
        input is Output ==> template_input(input).1 is None,
        !(input matches EffectInput::Intent(IntentInput::Page(_))) ==> template_input(input).0 == Some(1u32),
{
}

/// Inputs that carry the same text give scripts the same key, whatever their kind.
pub proof fn law_template_key_ignores_input_kind(a: IntentInput, b: IntentInput)
    requires
        intent_text(a) == intent_text(b),
    ensures
        template_input(EffectInput::Intent(a)).1 == template_input(EffectInput::Intent(b)).1,
{
}

/// The page and key a script's template receives: a page input gives its number (if it
/// parses) and its text; other text inputs give page 1 and their text; opaque input gives
/// page 1 and its JSON text; no input and upstream output give page 1 only.
pub fn quickjs_template_input(input: &EffectInput) -> (r: (Option<u32>, Option<String>))
    ensures
        r.0 == template_input(*input).0,
        match r.1 {
            Some(k) => template_input(*input).1 == Some(k@),
            None => template_input(*input).1 is None,
        },
{
    match input {
        EffectInput::Intent(IntentInput::Page(v)) => (parse_page(v.as_str()), Some(v.clone())),
        EffectInput::Intent(IntentInput::Query(v)) => (Some(1), Some(v.clone())),
        EffectInput::Intent(IntentInput::ItemId(v)) => (Some(1), Some(v.clone())),
        EffectInput::Intent(IntentInput::UnitId(v)) => (Some(1), Some(v.clone())),
        EffectInput::Intent(IntentInput::ActionId(v)) => (Some(1), Some(v.clone())),
        EffectInput::Intent(IntentInput::Opaque(v)) => (Some(1), Some(v.clone())),
        EffectInput::Intent(IntentInput::NoInput) => (Some(1), None),
        EffectInput::Output(_) => (Some(1), None),
    }
}

/// The script after template substitution: `{{page}}` becomes the page number, then
/// `{{key}}` becomes the escaped key; an absent value leaves its placeholder.
pub open spec fn prepared_script(code: Seq<char>, page: Option<u32>, key: Option<Seq<char>>) -> Seq<char> {
    let with_page = match page {
        Some(p) => replace_all(code, "{{page}}"@, decimal(p as nat)),
        None => code,
    };
    match key {
        Some(k) => replace_all(with_page, "{{key}}"@, js_escape(k)),
        None => with_page,
    }
}

/// Substitutes the template input into a script.
pub fn prepare_script(code: &str, page: Option<u32>, key: Option<&str>) -> (s: String)
    ensures
        s@ == prepared_script(
            code@,
            page,
            match key {
                Some(k) => Some(k@),
                None => None,
            },
        ),
{
    proof {
        reveal_strlit("{{page}}");
        reveal_strlit("{{key}}");
    }
    let mut out = to_owned_string(code);
    match page {
        Some(p) => {
            let digits = u32_to_decimal(p);
            out = str_replace(out.as_str(), "{{page}}", digits.as_str());
        },
        None => {},
    }
    match key {
        Some(k) => {
            let escaped = escape_js_string(k);
            out = str_replace(out.as_str(), "{{key}}", escaped.as_str());
        },
        None => {},
    }
    out
}

/// The archivable category of an engine failure.
pub open spec fn error_kind_of(e: JsError) -> QuickJsErrorKind {
    match e {
        JsError::RuntimeCreate(_) => QuickJsErrorKind::RuntimeInitialization,
        JsError::ContextCreate(_) => QuickJsErrorKind::ContextInitialization,
        JsError::EvalError(_) => QuickJsErrorKind::Evaluation,
        JsError::Timeout(_) => QuickJsErrorKind::Timeout,
        JsError::Watchdog => QuickJsErrorKind::Watchdog,
        JsError::Cancelled | JsError::CapabilityBlocked(_) => QuickJsErrorKind::WorkerFailure,
    }
}

/// Classifies an engine failure for the archive.
pub fn quickjs_error_kind(error: &JsError) -> (k: QuickJsErrorKind)
    ensures
        k == error_kind_of(*error),
{
    match error {
        JsError::RuntimeCreate(_) => QuickJsErrorKind::RuntimeInitialization,
        JsError::ContextCreate(_) => QuickJsErrorKind::ContextInitialization,
        JsError::EvalError(_) => QuickJsErrorKind::Evaluation,
        JsError::Timeout(_) => QuickJsErrorKind::Timeout,
        JsError::Watchdog => QuickJsErrorKind::Watchdog,
        JsError::Cancelled | JsError::CapabilityBlocked(_) => QuickJsErrorKind::WorkerFailure,
    }
}

/// What one run of a script produced.
#[derive(Debug, PartialEq, Eq)]
pub struct JsExecution {
    /// The script's text result, or the engine failure.
    pub result: Result<String, JsError>,
    /// Host calls in the order they happened.
    pub host_calls: Vec<QuickJsHostCall>,
    /// A category fixed by the runner, overriding the one the failure would give.
    pub error_kind: Option<QuickJsErrorKind>,
}

impl JsExecution {
    /// The run of a worker that ended unexpectedly.
    pub fn worker_failure() -> (e: JsExecution)
        ensures
            e.result matches Err(JsError::EvalError(m)) && m@ == "worker failure"@,
            e.host_calls@.len() == 0,
            e.error_kind == Some(QuickJsErrorKind::WorkerFailure),
    {
        JsExecution {
            result: Err(JsError::EvalError(to_owned_string("worker failure"))),
            host_calls: Vec::new(),
            error_kind: Some(QuickJsErrorKind::WorkerFailure),
        }
    }
}

/// Host calls numbered 1, 2, 3, ... in order (the number saturating at `u32::MAX`).
pub fn number_host_calls(calls: &Vec<QuickJsHostCall>) -> (w: Vec<QuickJsHostCallWitness>)
    ensures
        w@.len() == calls@.len(),
        forall|i: int| 0 <= i < w@.len() ==> (#[trigger] w@[i]).call == calls@[i] && w@[i].sequence == (if i + 1
            <= u32::MAX {
            (i + 1) as u32
        } else {
            u32::MAX
        }),
{
    let mut w: Vec<QuickJsHostCallWitness> = Vec::new();
    let mut i: usize = 0;
    while i < calls.len()
        invariant
            i <= calls@.len(),
            w@.len() == i,
            forall|j: int| 0 <= j < i ==> (#[trigger] w@[j]).call == calls@[j] && w@[j].sequence == (if j + 1
                <= u32::MAX {
                (j + 1) as u32
            } else {
                u32::MAX
            }),
        decreases calls@.len() - i,
    {
        let sequence: u32 = if i < 4294967295 { (i + 1) as u32 } else { 4294967295 };
        w.push(QuickJsHostCallWitness { sequence, call: calls[i] });
        i = i + 1;
    }
    w
}

/// Whether `text` parses as a JSON value.
pub uninterp spec fn is_json_text(text: Seq<char>) -> bool;

/// Calls `serde_json::from_str` into a `serde_json::Value`. Claimed: the result is the
/// named judgement on the text.
#[verifier::external_body]
fn parses_as_json(text: &str) -> (b: bool)
    ensures
        b == is_json_text(text@),
{
    serde_json::from_str::<serde_json::Value>(text).is_ok()
}

/// The typed output of a script run: a cancelled run is no output but a cancellation
/// error; a text result is JSON when it parses as JSON, else raw text; a failure is
/// archived under the runner's category, or else the failure's own.
pub fn quickjs_output(execution: &JsExecution) -> (r: Result<QuickJsOutput, EffectError>)
    ensures
        match execution.result {
            Err(JsError::Cancelled) => r matches Err(e) && e.code == EffectErrorCode::Cancelled && e.message@
                == "QuickJS effect 已取消"@,
            Err(e) => r == Ok::<QuickJsOutput, EffectError>(QuickJsOutput::Error(match execution.error_kind {
                Some(k) => k,
                None => error_kind_of(e),
            })),
            Ok(text) => match r {
                Ok(QuickJsOutput::Json(t)) => t@ == text@ && is_json_text(text@),
                Ok(QuickJsOutput::Raw(t)) => t@ == text@ && !is_json_text(text@),
                _ => false,
            },
        },
{
    match &execution.result {
        Err(JsError::Cancelled) => Err(EffectError::new(EffectErrorCode::Cancelled, to_owned_string("QuickJS effect 已取消"))),
        Err(e) => Ok(QuickJsOutput::Error(match execution.error_kind {
            Some(k) => k,
            None => quickjs_error_kind(e),
        })),
        Ok(text) => if parses_as_json(text.as_str()) {
            Ok(QuickJsOutput::Json(text.clone()))
        } else {
            Ok(QuickJsOutput::Raw(text.clone()))
        },
    }
}

/// The SplitMix64 mixing function, with wrapping arithmetic.
pub open spec fn splitmix64_spec(value: u64) -> u64 {
    let a = vstd::wrapping::u64_specs::wrapping_add(value, 0x9e37_79b9_7f4a_7c15);
    let b = vstd::wrapping::u64_specs::wrapping_mul(a ^ (a >> 30u64), 0xbf58_476d_1ce4_e5b9);
    let c = vstd::wrapping::u64_specs::wrapping_mul(b ^ (b >> 27u64), 0x94d0_49bb_1331_11eb);
    c ^ (c >> 31u64)
}

/// SplitMix64, which the script's `Math.random` draws from.
pub fn splitmix64(value: u64) -> (r: u64)
    ensures
        r == splitmix64_spec(value),
{
    let a = value.wrapping_add(0x9e37_79b9_7f4a_7c15);
    let b = (a ^ (a >> 30u64)).wrapping_mul(0xbf58_476d_1ce4_e5b9);
    let c = (b ^ (b >> 27u64)).wrapping_mul(0x94d0_49bb_1331_11eb);
    c ^ (c >> 31u64)
}


/// `value` rotated left by 17 bits.
pub open spec fn rotate_left_17(value: u64) -> u64 {
    (value << 17u64) | (value >> 47u64)
}

/// The 53 random bits behind the `n`-th `Math.random` call at time `epoch_millis`: the
/// time mixed with the call counter rotated left by 17 bits, through SplitMix64, keeping the
/// top 53 bits.
pub open spec fn random_numerator_spec(epoch_millis: u64, sequence: u64) -> u64 {
    splitmix64_spec(epoch_millis ^ rotate_left_17(sequence)) >> 11u64
}

/// The 53 random bits a `Math.random` call turns into a number in `[0, 1)`.
pub fn random_numerator(epoch_millis: u64, sequence: u64) -> (r: u64)
    ensures
        r == random_numerator_spec(epoch_millis, sequence),
        r < 0x20_0000_0000_0000,
{
    let rotated = (sequence << 17u64) | (sequence >> 47u64);
    let mixed = splitmix64(epoch_millis ^ rotated);
    let r = mixed >> 11u64;
    assert(mixed >> 11u64 < 0x20_0000_0000_0000u64) by (bit_vector);
    r
}

} // verus!

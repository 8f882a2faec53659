//! Scheduling decisions of a plan run: capability enforcement, the verdict on a captured
//! output, archive receipts, replay record checks, failure outcomes and the numbering of
//! session events.

use vstd::prelude::*;

use crate::effect::{
    output_kind, EffectArchiveError, EffectError, EffectErrorCode, EffectFailure, EffectOutput, QuickJsOutput,
};
use crate::graph_reach::Uid;
use crate::model::{EffectDeclaration, EffectKind};
use crate::plan_runtime::RuntimeFailureCode;
use crate::policy::PolicyCapabilities;
use crate::text::{chars_eq, chars_of, has_prefix, str_starts_with, to_owned_string};
use vstd::string::StringExecFns;

verus! {

/// Result of enforcing a declaration's capabilities: each declared capability in order
/// (only `network` is known, and needs the grant), then network for HTTP and QuickJS.
pub open spec fn capabilities_check(required: Seq<String>, kind: EffectKind, caps: PolicyCapabilities) -> Result<(), &'static str>
    decreases required.len(),
{
    if required.len() == 0 {
        if (kind == EffectKind::Http || kind == EffectKind::QuickJs) && !caps.network {
            Err("安装 grant 未允许 network capability")
        } else {
            Ok(())
        }
    } else if required[0]@ == "network"@ {
        if caps.network {
            capabilities_check(required.drop_first(), kind, caps)
        } else {
            Err("安装 grant 未允许 network capability")
        }
    } else {
        Err("Plan 声明了 runtime 不支持的 capability")
    }
}

/// Checks that the grant allows what an effect declaration needs.
pub fn enforce_capabilities(declaration: &EffectDeclaration, capabilities: &PolicyCapabilities) -> (r: Result<(), &'static str>)
    ensures
        r == capabilities_check(declaration.required_capabilities@, declaration.kind, *capabilities),
{
    let mut i: usize = 0;
    let ghost all = declaration.required_capabilities@;
    proof {
        assert(all.skip(0) =~= all);
    }
    while i < declaration.required_capabilities.len()
        invariant
            i <= all.len(),
            all == declaration.required_capabilities@,
            capabilities_check(all, declaration.kind, *capabilities) == capabilities_check(
                all.skip(i as int),
                declaration.kind,
                *capabilities,
            ),
        decreases all.len() - i,
    {
        proof {
            assert(all.skip(i as int)[0] == all[i as int]);
            assert(all.skip(i as int).drop_first() =~= all.skip(i + 1));
        }
        let name = chars_of(declaration.required_capabilities[i].as_str());
        if chars_eq(&name, &chars_of("network")) {
            if !capabilities.network {
                return Err("安装 grant 未允许 network capability");
            }
        } else {
            return Err("Plan 声明了 runtime 不支持的 capability");
        }
        i = i + 1;
    }
    match declaration.kind {
        EffectKind::Http | EffectKind::QuickJs => if !capabilities.network {
            return Err("安装 grant 未允许 network capability");
        },
        EffectKind::Extract => {},
    }
    Ok(())
}

/// The failure message of a captured output that records a failure, if it does.
pub open spec fn output_failure(o: EffectOutput) -> Option<&'static str> {
    match o {
        EffectOutput::Failure(EffectFailure::Http { .. }) => Some("HTTP effect 执行失败"),
        EffectOutput::Failure(EffectFailure::QuickJs { .. }) => Some("QuickJS effect 执行失败"),
        EffectOutput::QuickJs(QuickJsOutput::Error(_)) => Some("QuickJS effect 执行失败"),
        EffectOutput::Failure(EffectFailure::Extract) => Some("Extract effect 执行失败"),
        _ => None,
    }
}

/// The failure a captured output records, if any: such an output is archived but stops
/// the run.
pub fn captured_output_failure(output: &EffectOutput) -> (r: Option<&'static str>)
    ensures
        r == output_failure(*output),
{
    match output {
        EffectOutput::Failure(EffectFailure::Http { .. }) => Some("HTTP effect 执行失败"),
        EffectOutput::Failure(EffectFailure::QuickJs { .. }) => Some("QuickJS effect 执行失败"),
        EffectOutput::QuickJs(QuickJsOutput::Error(_)) => Some("QuickJS effect 执行失败"),
        EffectOutput::Failure(EffectFailure::Extract) => Some("Extract effect 执行失败"),
        EffectOutput::Http(_) | EffectOutput::QuickJs(_) | EffectOutput::Extract(_) => None,
    }
}

/// The archive's receipt for a durably stored capture.
#[derive(Debug, Clone, PartialEq, Eq)]
pub struct DurableCaptureReceipt {
    /// Stored effect.
    pub effect_id: Uid,
    /// Stored fingerprint.
    pub fingerprint: String,
    /// Stored output hash.
    pub output_hash: String,
    /// Stored witness hash.
    pub witness_hash: String,
}

/// Key of a replay lookup in the archive.
#[derive(Debug, Clone, Copy, PartialEq, Eq, Structural)]
pub struct EffectReplayLookup {
    /// Execution being replayed.
    pub archived_execution_id: Uid,
    /// Node to replay.
    pub node_id: Uid,
    /// Effect kind to replay.
    pub kind: EffectKind,
}

/// The receipt names exactly the effect just stored.
pub fn receipt_matches(
    receipt: &DurableCaptureReceipt,
    effect_id: Uid,
    fingerprint: &str,
    output_hash: &str,
    witness_hash: &str,
) -> (b: bool)
    ensures
        b == (receipt.effect_id == effect_id && receipt.fingerprint@ == fingerprint@ && receipt.output_hash@
            == output_hash@ && receipt.witness_hash@ == witness_hash@),
{
    receipt.effect_id == effect_id && chars_eq(&chars_of(receipt.fingerprint.as_str()), &chars_of(fingerprint))
        && chars_eq(&chars_of(receipt.output_hash.as_str()), &chars_of(output_hash)) && chars_eq(
        &chars_of(receipt.witness_hash.as_str()),
        &chars_of(witness_hash),
    )
}

/// The stored fields of an archived capture that replay checks.
#[derive(Debug, Clone, PartialEq, Eq)]
pub struct ReplayRecord {
    /// Execution it was captured in.
    pub execution_id: Uid,
    /// Effect identifier.
    pub effect_id: Uid,
    /// Node it belongs to.
    pub node_id: Uid,
    /// Effect kind recorded.
    pub kind: EffectKind,
    /// Effect kind of the stored output.
    pub output_kind: EffectKind,
    /// Stored fingerprint.
    pub fingerprint: String,
    /// Stored output hash.
    pub output_hash: String,
}

/// Verdict on a replay record, in the order replay checks it: it must belong to the pinned
/// execution, node and kind; carry the current fingerprint; have an output whose hash can
/// be recomputed and equals the stored one; and a witness that is intact and bound to the
/// current node and input.
pub open spec fn replay_verdict(
    record: ReplayRecord,
    lookup: EffectReplayLookup,
    fingerprint: Seq<char>,
    recomputed_output_hash: Option<Seq<char>>,
    witness_intact: bool,
) -> Result<(), (RuntimeFailureCode, &'static str)> {
    if record.execution_id != lookup.archived_execution_id || record.node_id != lookup.node_id || record.kind
        != lookup.kind || record.output_kind != lookup.kind {
        Err((RuntimeFailureCode::ReplayRecordMismatch, "replay effect capture 归属不匹配"))
    } else if record.fingerprint@ != fingerprint {
        Err((RuntimeFailureCode::ReplayFingerprintMismatch, "replay effect fingerprint 不匹配"))
    } else if recomputed_output_hash is None {
        Err((RuntimeFailureCode::ReplayOutputHashMismatch, "replay effect 输出无法校验"))
    } else if Some(record.output_hash@) != recomputed_output_hash {
        Err((RuntimeFailureCode::ReplayOutputHashMismatch, "replay effect 输出 hash 不匹配"))
    } else if !witness_intact {
        Err((RuntimeFailureCode::ReplayWitnessMismatch, "replay effect witness 无效"))
    } else {
        Ok(())
    }
}

/// Checks a replay record before its output is used; any mismatch is a hard failure and
/// never falls back to a live effect.
pub fn check_replay_record(
    record: &ReplayRecord,
    lookup: &EffectReplayLookup,
    fingerprint: &str,
    recomputed_output_hash: Option<&str>,
    witness_intact: bool,
) -> (r: Result<(), (RuntimeFailureCode, &'static str)>)
    ensures
        r == replay_verdict(
            *record,
            *lookup,
            fingerprint@,
            match recomputed_output_hash {
                Some(h) => Some(h@),
                None => None,
            },
            witness_intact,
        ),
{
    if record.execution_id != lookup.archived_execution_id || record.node_id != lookup.node_id || record.kind
        != lookup.kind || record.output_kind != lookup.kind {
        return Err((RuntimeFailureCode::ReplayRecordMismatch, "replay effect capture 归属不匹配"));
    }
    if !chars_eq(&chars_of(record.fingerprint.as_str()), &chars_of(fingerprint)) {
        return Err((RuntimeFailureCode::ReplayFingerprintMismatch, "replay effect fingerprint 不匹配"));
    }
    match recomputed_output_hash {
        None => Err((RuntimeFailureCode::ReplayOutputHashMismatch, "replay effect 输出无法校验")),
        Some(h) => if !chars_eq(&chars_of(record.output_hash.as_str()), &chars_of(h)) {
            Err((RuntimeFailureCode::ReplayOutputHashMismatch, "replay effect 输出 hash 不匹配"))
        } else if !witness_intact {
            Err((RuntimeFailureCode::ReplayWitnessMismatch, "replay effect witness 无效"))
        } else {
            Ok(())
        },
    }
}

/// A failure with the execution, node, effect and trace it belongs to.
#[derive(Debug, Clone, PartialEq, Eq)]
pub struct ExecutionFailure {
    /// Stable category.
    pub code: RuntimeFailureCode,
    /// Execution.
    pub execution_id: Uid,
    /// Node, for node-level failures.
    pub node_id: Option<Uid>,
    /// Effect, for effect failures.
    pub effect_id: Option<Uid>,
    /// Trace.
    pub trace_id: String,
    /// Short message with no body, cookie, token or query.
    pub message: String,
}

/// How a run ends.
#[derive(Debug, Clone, PartialEq, Eq)]
pub enum RunOutcome {
    /// Every node ran.
    Completed,
    /// Cancellation was observed.
    Cancelled,
    /// The run failed.
    Failed(ExecutionFailure),
}

/// `o` fails the run with this code and message, attributed to the execution, trace, node
/// and effect.
pub open spec fn is_failure(
    o: RunOutcome,
    code: RuntimeFailureCode,
    message: Seq<char>,
    execution_id: Uid,
    trace_id: Seq<char>,
    node_id: Option<Uid>,
    effect_id: Option<Uid>,
) -> bool {
    o matches RunOutcome::Failed(f) && f.code == code && f.message@ == message && f.execution_id == execution_id
        && f.trace_id@ == trace_id && f.node_id == node_id && f.effect_id == effect_id
}

/// The outcome that fails the run with a code and a safe message.
pub fn failure_outcome(
    execution_id: Uid,
    trace_id: &str,
    code: RuntimeFailureCode,
    message: &str,
    node_id: Option<Uid>,
    effect_id: Option<Uid>,
) -> (o: RunOutcome)
    ensures
        is_failure(o, code, message@, execution_id, trace_id@, node_id, effect_id),
{
    RunOutcome::Failed(
        ExecutionFailure {
            code,
            execution_id,
            node_id,
            effect_id,
            trace_id: to_owned_string(trace_id),
            message: to_owned_string(message),
        },
    )
}

/// What follows once an effect's capture (or replay) event was emitted: a cancellation
/// observed meanwhile ends the run as cancelled; an output that records a failure fails
/// it; otherwise the output goes downstream (`None`).
pub fn after_effect_event(
    cancelled: bool,
    output: &EffectOutput,
    execution_id: Uid,
    trace_id: &str,
    node_id: Uid,
    effect_id: Uid,
) -> (r: Option<RunOutcome>)
    ensures
        cancelled ==> r == Some(RunOutcome::Cancelled),
        !cancelled && output_failure(*output) is None ==> r is None,
        !cancelled && output_failure(*output) is Some ==> (r matches Some(o) && is_failure(
            o,
            RuntimeFailureCode::EffectFailed,
            output_failure(*output)->0@,
            execution_id,
            trace_id@,
            Some(node_id),
            Some(effect_id),
        )),
{
    if cancelled {
        return Some(RunOutcome::Cancelled);
    }
    match captured_output_failure(output) {
        Some(message) => Some(
            failure_outcome(
                execution_id,
                trace_id,
                RuntimeFailureCode::EffectFailed,
                message,
                Some(node_id),
                Some(effect_id),
            ),
        ),
        None => None,
    }
}

/// Verdict of a replay effect on what the archive answered: an unreadable archive or a
/// missing capture fails it as missing; a record found is judged by [`replay_verdict`].
pub open spec fn replay_step_verdict(
    lookup: EffectReplayLookup,
    loaded: Result<Option<ReplayRecord>, EffectArchiveError>,
    fingerprint: Seq<char>,
    recomputed_output_hash: Option<Seq<char>>,
    witness_intact: bool,
) -> Result<(), (RuntimeFailureCode, &'static str)> {
    match loaded {
        Err(_) => Err((RuntimeFailureCode::ReplayCaptureMissing, "replay archive 不可读取")),
        Ok(None) => Err((RuntimeFailureCode::ReplayCaptureMissing, "replay 缺少 effect capture")),
        Ok(Some(record)) => replay_verdict(record, lookup, fingerprint, recomputed_output_hash, witness_intact),
    }
}

/// Decides a replay effect from the archive's answer to `lookup` alone. Replay takes no
/// handler, no credentials and no adapter: its output only ever comes from the archive.
pub fn replay_effect_step(
    lookup: &EffectReplayLookup,
    loaded: &Result<Option<ReplayRecord>, EffectArchiveError>,
    fingerprint: &str,
    recomputed_output_hash: Option<&str>,
    witness_intact: bool,
) -> (r: Result<(), (RuntimeFailureCode, &'static str)>)
    ensures
        r == replay_step_verdict(
            *lookup,
            *loaded,
            fingerprint@,
            match recomputed_output_hash {
                Some(h) => Some(h@),
                None => None,
            },
            witness_intact,
        ),
{
    match loaded {
        Err(_) => Err((RuntimeFailureCode::ReplayCaptureMissing, "replay archive 不可读取")),
        Ok(None) => Err((RuntimeFailureCode::ReplayCaptureMissing, "replay 缺少 effect capture")),
        Ok(Some(record)) => check_replay_record(record, lookup, fingerprint, recomputed_output_hash, witness_intact),
    }
}

/// Replay accepts an output only from an archived record that belongs to the pinned
/// execution, node and kind, carries the current fingerprint and the recomputed output
/// hash, and has an intact witness bound to the current node and input.
pub proof fn law_replay_accepts_only_matching_record(
    lookup: EffectReplayLookup,
    loaded: Result<Option<ReplayRecord>, EffectArchiveError>,
    fingerprint: Seq<char>,
    recomputed_output_hash: Option<Seq<char>>,
    witness_intact: bool,
)
    requires
        replay_step_verdict(lookup, loaded, fingerprint, recomputed_output_hash, witness_intact) is Ok,
    ensures
        loaded matches Ok(Some(record)) && record.execution_id == lookup.archived_execution_id && record.node_id
            == lookup.node_id && record.kind == lookup.kind && record.output_kind == lookup.kind
            && record.fingerprint@ == fingerprint && recomputed_output_hash == Some(record.output_hash@),
        witness_intact,
{
}

/// The run outcome of an effect handler error: a cancellation ends the run as cancelled;
/// any other error fails it as an effect failure with the handler's message.
pub fn effect_error_outcome(execution_id: Uid, trace_id: &str, node_id: Uid, effect_id: Uid, error: EffectError) -> (o: RunOutcome)
    ensures
        error.code == EffectErrorCode::Cancelled ==> o == RunOutcome::Cancelled,
        error.code != EffectErrorCode::Cancelled ==> (o matches RunOutcome::Failed(f) && f.code
            == RuntimeFailureCode::EffectFailed && f.execution_id == execution_id && f.node_id == Some(node_id)
            && f.effect_id == Some(effect_id) && f.trace_id@ == trace_id@ && f.message@ == error.message@),
{
    if error.code == EffectErrorCode::Cancelled {
        RunOutcome::Cancelled
    } else {
        RunOutcome::Failed(ExecutionFailure {
            code: RuntimeFailureCode::EffectFailed,
            execution_id,
            node_id: Some(node_id),
            effect_id: Some(effect_id),
            trace_id: to_owned_string(trace_id),
            message: error.message,
        })
    }
}

/// The media identifier of a source: its identity with a `source:` prefix, added when it is
/// missing.
pub fn source_media_id(source_id: &str) -> (id: String)
    ensures
        has_prefix(source_id@, "source:"@) ==> id@ == source_id@,
        !has_prefix(source_id@, "source:"@) ==> id@ == "source:"@ + source_id@,
{
    if str_starts_with(source_id, "source:") {
        to_owned_string(source_id)
    } else {
        let mut id = to_owned_string("source:");
        id.append(source_id);
        id
    }
}

// ---------------------------------------------------------------------------------------
// Session event numbering.

/// State of a session's event emitter.
#[derive(Debug, Clone, Copy, PartialEq, Eq, Structural)]
pub struct EmitterState {
    /// Sequence number of the next event.
    pub next_sequence: u64,
    /// Whether the terminal event was emitted.
    pub terminal_sent: bool,
    /// Whether the receiver went away.
    pub receiver_gone: bool,
}

/// A fresh emitter.
pub open spec fn fresh_emitter() -> EmitterState {
    EmitterState { next_sequence: 1, terminal_sent: false, receiver_gone: false }
}

/// The number an emitter hands out next: none once the receiver is gone.
pub open spec fn taken(s: EmitterState) -> Option<u64> {
    if s.receiver_gone {
        None
    } else {
        Some(s.next_sequence)
    }
}

/// The emitter after handing out a number (saturating at the largest one).
pub open spec fn after_take(s: EmitterState) -> EmitterState {
    if s.receiver_gone {
        s
    } else {
        EmitterState {
            next_sequence: if s.next_sequence == u64::MAX {
                u64::MAX
            } else {
                (s.next_sequence + 1) as u64
            },
            ..s
        }
    }
}

/// The emitter after `n` numbers were handed out.
pub open spec fn takes(s: EmitterState, n: nat) -> EmitterState
    decreases n,
{
    if n == 0 {
        s
    } else {
        after_take(takes(s, (n - 1) as nat))
    }
}

/// Claiming the terminal event: whether this claim is the first, and the emitter after it.
pub open spec fn claimed(s: EmitterState) -> (bool, EmitterState) {
    (!s.terminal_sent, EmitterState { terminal_sent: true, ..s })
}

/// A session numbers its events 1, 2, 3, ...: the number handed out after `n` others is
/// `n + 1` (below the saturation point).
pub proof fn law_sequences_count_from_one(n: nat)
    requires
        n < u64::MAX,
    ensures
        taken(takes(fresh_emitter(), n)) == Some((n + 1) as u64),
    decreases n,
{
    lemma_takes_fresh(n);
}

proof fn lemma_takes_fresh(n: nat)
    requires
        n < u64::MAX,
    ensures
        takes(fresh_emitter(), n).next_sequence == n + 1,
        !takes(fresh_emitter(), n).receiver_gone,
    decreases n,
{
    if n > 0 {
        lemma_takes_fresh((n - 1) as nat);
    }
}

/// A session sends at most one terminal event: once a claim has been made, every later
/// claim is refused, whatever numbers were handed out in between.
pub proof fn law_single_terminal(s: EmitterState, n: nat)
    ensures
        !claimed(takes(claimed(s).1, n)).0,
    decreases n,
{
    lemma_takes_keeps_terminal(claimed(s).1, n);
}

proof fn lemma_takes_keeps_terminal(s: EmitterState, n: nat)
    ensures
        takes(s, n).terminal_sent == s.terminal_sent,
    decreases n,
{
    if n > 0 {
        lemma_takes_keeps_terminal(s, (n - 1) as nat);
    }
}

impl EmitterState {
    /// A fresh emitter: numbering starts at 1.
    pub fn new() -> (s: EmitterState)
        ensures
            s == fresh_emitter(),
    {
        EmitterState { next_sequence: 1, terminal_sent: false, receiver_gone: false }
    }

    /// Takes the sequence number for an event: none once the receiver is gone; otherwise
    /// the next number, which then advances (saturating).
    pub fn take_sequence(&mut self) -> (seq: Option<u64>)
        ensures
            seq == taken(*old(self)),
            *final(self) == after_take(*old(self)),
    {
        if self.receiver_gone {
            return None;
        }
        let seq = self.next_sequence;
        self.next_sequence = self.next_sequence.saturating_add(1);
        Some(seq)
    }

    /// Records that the receiver is gone; no further event is sent.
    pub fn receiver_dropped(&mut self)
        ensures
            final(self).receiver_gone,
            final(self).next_sequence == old(self).next_sequence,
            final(self).terminal_sent == old(self).terminal_sent,
    {
        self.receiver_gone = true;
    }

    /// Claims the single terminal event: true the first time only.
    pub fn claim_terminal(&mut self) -> (first: bool)
        ensures
            first == claimed(*old(self)).0,
            *final(self) == claimed(*old(self)).1,
    {
        if self.terminal_sent {
            return false;
        }
        self.terminal_sent = true;
        true
    }
}

} // verus!

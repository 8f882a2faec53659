//! Durable effect captures: binding an effect's typed output to its safe witness, and the
//! integrity checks a capture must pass before it is archived or replayed.
//!
//! Canonical hashes of typed outputs and witnesses are computed from their serialised form
//! by the caller; the checks here take those recomputed hashes as arguments.

use vstd::prelude::*;

use crate::effect::{
    output_kind, EffectArchiveError, EffectError, HttpResponse, EffectErrorCode, EffectFailure, EffectOutput, HttpEffectErrorKind, QuickJsErrorKind,
    QuickJsOutput,
};
use crate::graph_reach::Uid;
use crate::json::{copy_string, get, spec_as_str, spec_get, JsonValue};
use crate::model::{EffectKind, PlanNode};
use crate::plan_runtime::RuntimeFailureCode;
use crate::scheduling::{receipt_matches, DurableCaptureReceipt};
use crate::text::{chars_eq, chars_of, to_owned_string, trim, trim_chars};
use crate::http_effect::{effect_error_from_http, request_error_kind, HttpRequestError};
use crate::quickjs::number_host_calls;
use crate::witness::{
    blake3_hex, is_hash_text, quickjs_script_hash, HttpEffectWitness, QuickJsEffectWitness, QuickJsHostCall, witness_kind, witness_result, EffectCaptureMaterial,
    EffectCaptureMaterialSensitivity, EffectWitness, EffectWitnessError,
};
use vstd::utf8::encode_utf8;

verus! {

/// The failure category a QuickJS output archives: its error, if it is one.
pub open spec fn quickjs_output_error(o: QuickJsOutput) -> Option<QuickJsErrorKind> {
    match o {
        QuickJsOutput::Error(e) => Some(e),
        _ => None,
    }
}

/// How an output and a witness of the same kind fit together, given the recomputed
/// canonical hash of the output (`None` where it could not be computed).
pub open spec fn pair_result(
    output: EffectOutput,
    witness: EffectWitness,
    output_hash: Option<Seq<char>>,
) -> Result<(), EffectWitnessError> {
    match (output, witness) {
        (EffectOutput::Http(_), EffectWitness::Http(w)) => if w.error is None {
            Ok(())
        } else {
            Err(EffectWitnessError::KindMismatch)
        },
        (EffectOutput::QuickJs(o), EffectWitness::QuickJs(w)) => match output_hash {
            None => Err(EffectWitnessError::InvalidHash),
            Some(h) => if w.output_hash@ != h || w.error != quickjs_output_error(o) {
                Err(EffectWitnessError::QuickJsOutputHashMismatch)
            } else {
                Ok(())
            },
        },
        (EffectOutput::Extract(_), EffectWitness::Extract(_)) => Ok(()),
        (EffectOutput::Failure(EffectFailure::Extract), EffectWitness::Extract(_)) => Ok(()),
        (EffectOutput::Failure(EffectFailure::Http { error }), EffectWitness::Http(w)) => if w.error
            == Some(error) {
            Ok(())
        } else {
            Err(EffectWitnessError::KindMismatch)
        },
        (EffectOutput::Failure(EffectFailure::QuickJs { error }), EffectWitness::QuickJs(w)) => if w.error
            == Some(error) {
            Ok(())
        } else {
            Err(EffectWitnessError::KindMismatch)
        },
        _ => Err(EffectWitnessError::KindMismatch),
    }
}

/// The output is an HTTP response or an HTTP failure.
pub open spec fn is_http_output(o: EffectOutput) -> bool {
    o is Http || o matches EffectOutput::Failure(EffectFailure::Http { .. })
}

/// Result of checking an output/witness pair: same kind, a valid witness, fields that fit
/// together, and a request body only beside an HTTP output.
pub open spec fn captured_result(
    output: EffectOutput,
    witness: EffectWitness,
    has_request_body: bool,
    output_hash: Option<Seq<char>>,
) -> Result<(), EffectWitnessError> {
    if output_kind(output) != witness_kind(witness) {
        Err(EffectWitnessError::KindMismatch)
    } else if witness_result(witness) is Err {
        witness_result(witness)
    } else if pair_result(output, witness, output_hash) is Err {
        pair_result(output, witness, output_hash)
    } else if has_request_body && !is_http_output(output) {
        Err(EffectWitnessError::KindMismatch)
    } else {
        Ok(())
    }
}

/// Text of an optional string.
pub open spec fn opt_view(s: Option<&str>) -> Option<Seq<char>> {
    match s {
        Some(t) => Some(t@),
        None => None,
    }
}

/// The typed output of an effect that a handler ran, with its witness.
pub struct CapturedEffectOutput {
    /// Typed output handed to downstream nodes.
    pub output: EffectOutput,
    /// Safe witness bound to the output, for archive and replay checks.
    pub witness: EffectWitness,
    capture_material: EffectCaptureMaterial,
}

impl CapturedEffectOutput {
    /// Request body carried for the archive, if any.
    pub closed spec fn body(&self) -> Option<Seq<u8>> {
        self.capture_material.body_view()
    }

    /// The typed output.
    pub closed spec fn output_view(&self) -> EffectOutput {
        self.output
    }

    /// The witness.
    pub closed spec fn witness_view(&self) -> EffectWitness {
        self.witness
    }

    /// An output/witness pair with no request body.
    pub fn new(output: EffectOutput, witness: EffectWitness) -> (c: CapturedEffectOutput)
        ensures
            c.output_view() == output,
            c.witness_view() == witness,
            c.body() is None,
    {
        CapturedEffectOutput { output, witness, capture_material: EffectCaptureMaterial::from_http_request_body(None) }
    }

    /// Attaches the raw HTTP request body; it never enters the witness and is archived only
    /// as a secret artifact.
    pub fn with_http_request_body(self, request_body: Option<Vec<u8>>) -> (c: CapturedEffectOutput)
        ensures
            c.output_view() == self.output_view(),
            c.witness_view() == self.witness_view(),
            c.body() == (match request_body {
                Some(b) => Some(b@),
                None => None::<Seq<u8>>,
            }),
    {
        CapturedEffectOutput {
            output: self.output,
            witness: self.witness,
            capture_material: EffectCaptureMaterial::from_http_request_body(request_body),
        }
    }

    /// The raw request body, only for the archive.
    pub fn request_body(&self) -> (r: Option<&[u8]>)
        ensures
            match r {
                Some(b) => self.body() == Some(b@),
                None => self.body() is None,
            },
    {
        self.capture_material.request_body()
    }

    /// Checks that output, witness and effect kind fit together. `output_hash` is the
    /// recomputed canonical hash of the output (`None` where it could not be computed); it
    /// is compared with a QuickJS witness's output hash.
    pub fn validate(&self, output_hash: Option<&str>) -> (r: Result<(), EffectWitnessError>)
        ensures
            r == captured_result(self.output_view(), self.witness_view(), self.body() is Some, opt_view(output_hash)),
    {
        check_captured(&self.output, &self.witness, self.capture_material.request_body().is_some(), output_hash)
    }
}

fn check_captured(
    output: &EffectOutput,
    witness: &EffectWitness,
    has_request_body: bool,
    output_hash: Option<&str>,
) -> (r: Result<(), EffectWitnessError>)
    ensures
        r == captured_result(*output, *witness, has_request_body, opt_view(output_hash)),
{
    if output.kind() != witness.kind() {
        return Err(EffectWitnessError::KindMismatch);
    }
    match witness.validate() {
        Err(e) => {
            return Err(e);
        },
        Ok(()) => {},
    }
    let paired = check_pair(output, witness, output_hash);
    if paired.is_err() {
        return paired;
    }
    if has_request_body && !is_http(output) {
        return Err(EffectWitnessError::KindMismatch);
    }
    Ok(())
}

fn is_http(o: &EffectOutput) -> (b: bool)
    ensures
        b == is_http_output(*o),
{
    match o {
        EffectOutput::Http(_) => true,
        EffectOutput::Failure(EffectFailure::Http { .. }) => true,
        _ => false,
    }
}

fn same_quickjs_error(recorded: Option<QuickJsErrorKind>, expected: Option<QuickJsErrorKind>) -> (b: bool)
    ensures
        b == (recorded == expected),
{
    match (recorded, expected) {
        (Some(a), Some(b)) => a == b,
        (None, None) => true,
        _ => false,
    }
}

fn same_http_error(recorded: Option<HttpEffectErrorKind>, expected: HttpEffectErrorKind) -> (b: bool)
    ensures
        b == (recorded == Some(expected)),
{
    match recorded {
        Some(a) => a == expected,
        None => false,
    }
}

fn check_pair(output: &EffectOutput, witness: &EffectWitness, output_hash: Option<&str>) -> (r: Result<
    (),
    EffectWitnessError,
>)
    ensures
        r == pair_result(*output, *witness, opt_view(output_hash)),
{
    match (output, witness) {
        (EffectOutput::Http(_), EffectWitness::Http(w)) => if w.error.is_none() {
            Ok(())
        } else {
            Err(EffectWitnessError::KindMismatch)
        },
        (EffectOutput::QuickJs(o), EffectWitness::QuickJs(w)) => match output_hash {
            None => Err(EffectWitnessError::InvalidHash),
            Some(h) => {
                let expected = match o {
                    QuickJsOutput::Error(e) => Some(*e),
                    _ => None,
                };
                if !chars_eq(&chars_of(w.output_hash.as_str()), &chars_of(h)) || !same_quickjs_error(w.error, expected) {
                    Err(EffectWitnessError::QuickJsOutputHashMismatch)
                } else {
                    Ok(())
                }
            },
        },
        (EffectOutput::Extract(_), EffectWitness::Extract(_)) => Ok(()),
        (EffectOutput::Failure(EffectFailure::Extract), EffectWitness::Extract(_)) => Ok(()),
        (EffectOutput::Failure(EffectFailure::Http { error }), EffectWitness::Http(w)) => if same_http_error(w.error, *error) {
            Ok(())
        } else {
            Err(EffectWitnessError::KindMismatch)
        },
        (EffectOutput::Failure(EffectFailure::QuickJs { error }), EffectWitness::QuickJs(w)) => if same_quickjs_error(w.error, Some(*error)) {
            Ok(())
        } else {
            Err(EffectWitnessError::KindMismatch)
        },
        _ => Err(EffectWitnessError::KindMismatch),
    }
}


/// The fields of a capture as the archive decodes them for replay (no request body).
#[derive(Debug, PartialEq, Eq)]
pub struct ArchivedEffectCapture {
    /// Execution the effect happened in.
    pub execution_id: Uid,
    /// Effect ID.
    pub effect_id: Uid,
    /// Plan node it belongs to.
    pub node_id: Uid,
    /// Effect kind.
    pub kind: EffectKind,
    /// Plan/input fingerprint.
    pub fingerprint: String,
    /// Stored canonical hash of the typed output.
    pub output_hash: String,
    /// Stored canonical hash of the witness.
    pub witness_hash: String,
    /// Decoded typed output.
    pub output: EffectOutput,
    /// Decoded safe witness.
    pub witness: EffectWitness,
}

/// The host-call numbering a QuickJS witness records: 1, 2, 3, ... in call order.
pub open spec fn host_calls_numbered(w: QuickJsEffectWitness, calls: Seq<QuickJsHostCall>) -> bool {
    &&& w.host_calls@.len() == calls.len()
    &&& forall|i: int| 0 <= i < calls.len() ==> (#[trigger] w.host_calls@[i]).call == calls[i] && w.host_calls@[i].sequence == (
    if i + 1 <= u32::MAX {
        (i + 1) as u32
    } else {
        u32::MAX
    })
}

/// The capture of a QuickJS run: its output beside a witness of the script, input and
/// output hashes, the output's error category, and the host calls numbered in order. With
/// well-formed hashes and fewer host calls than `u32::MAX`, the pair passes the capture
/// check against `output_hash`.
pub fn quickjs_capture(
    output: QuickJsOutput,
    script_hash: String,
    input_hash: String,
    output_hash: String,
    calls: &Vec<QuickJsHostCall>,
    duration_ms: u64,
) -> (c: CapturedEffectOutput)
    ensures
        c.output_view() == EffectOutput::QuickJs(output),
        c.body() is None,
        c.witness_view() matches EffectWitness::QuickJs(w) && w.script_hash@ == script_hash@ && w.input_hash@
            == input_hash@ && w.output_hash@ == output_hash@ && w.error == quickjs_output_error(output)
            && w.duration_ms == duration_ms && host_calls_numbered(w, calls@),
        is_hash_text(script_hash@) && is_hash_text(input_hash@) && is_hash_text(output_hash@) && calls@.len()
            < u32::MAX ==> captured_result(c.output_view(), c.witness_view(), false, Some(output_hash@)) is Ok,
{
    let error = match &output {
        QuickJsOutput::Error(kind) => Some(*kind),
        QuickJsOutput::Json(_) | QuickJsOutput::Raw(_) => None,
    };
    let host_calls = number_host_calls(calls);
    let witness = QuickJsEffectWitness { script_hash, input_hash, output_hash, error, host_calls, duration_ms };
    let ghost w = witness;
    let c = CapturedEffectOutput::new(EffectOutput::QuickJs(output), EffectWitness::QuickJs(witness));
    proof {
        if calls@.len() < u32::MAX {
            assert forall|i: int| 0 <= i < w.host_calls@.len() implies (#[trigger] w.host_calls@[i]).sequence == i + 1 by {}
        }
    }
    c
}

/// The capture of an HTTP effect from how its request ended: a response is the output
/// with a witness that records no error; a failure that happened after the effect started
/// is archived as an HTTP failure output whose witness records the same category; a
/// cancellation is returned as the handler error. The raw request body rides along for
/// the archive.
pub fn http_capture(
    outcome: Result<HttpResponse, HttpRequestError>,
    witness: HttpEffectWitness,
    request_body: Option<Vec<u8>>,
) -> (r: Result<CapturedEffectOutput, EffectError>)
    ensures
        outcome matches Ok(resp) ==> (r matches Ok(c) && c.output_view() == EffectOutput::Http(resp)
            && c.witness_view() == EffectWitness::Http(HttpEffectWitness { error: None, ..witness })),
        outcome is Err && request_error_kind(outcome->Err_0) is Some ==> (r matches Ok(c) && c.output_view()
            == EffectOutput::Failure(EffectFailure::Http { error: request_error_kind(outcome->Err_0)->0 })
            && c.witness_view() == EffectWitness::Http(
            HttpEffectWitness { error: request_error_kind(outcome->Err_0), ..witness },
        )),
        outcome is Err && request_error_kind(outcome->Err_0) is None ==> (r matches Err(err) && err.code
            == EffectErrorCode::Cancelled && err.message@ == "HTTP effect 已取消"@),
        r matches Ok(c) ==> c.body() == (match request_body {
            Some(b) => Some(b@),
            None => None::<Seq<u8>>,
        }),
        r matches Ok(c) ==> (c.output_view() is Http <==> c.witness_view()->Http_0.error is None),
{
    let mut witness = witness;
    match outcome {
        Ok(response) => {
            witness.error = None;
            Ok(
                CapturedEffectOutput::new(EffectOutput::Http(response), EffectWitness::Http(witness)).with_http_request_body(
                    request_body,
                ),
            )
        },
        Err(error) => match error.witness_kind() {
            None => Err(effect_error_from_http(error)),
            Some(kind) => {
                witness.error = Some(kind);
                Ok(
                    CapturedEffectOutput::new(
                        EffectOutput::Failure(EffectFailure::Http { error: kind }),
                        EffectWitness::Http(witness),
                    ).with_http_request_body(request_body),
                )
            },
        },
    }
}

/// The durable capture of an effect that happened.
pub struct EffectCapture {
    /// Execution the effect happened in.
    pub execution_id: Uid,
    /// Effect ID, unique in the execution.
    pub effect_id: Uid,
    /// Plan node it belongs to.
    pub node_id: Uid,
    /// Effect kind.
    pub kind: EffectKind,
    /// Stable fingerprint from the plan, node configuration and upstream input.
    pub fingerprint: String,
    /// Canonical hash of the typed output.
    pub output_hash: String,
    /// Canonical hash of the safe witness.
    pub witness_hash: String,
    /// Typed output.
    pub output: EffectOutput,
    /// Safe witness bound to the output.
    pub witness: EffectWitness,
    capture_material: EffectCaptureMaterial,
}

/// Result of the replay integrity check of a capture's fields, given the recomputed
/// canonical hashes of its output and witness (`None` where they could not be computed):
/// a fingerprint and a kind that agree with the output, a well-formed output/witness pair,
/// then both stored hashes equal to the recomputed ones.
pub open spec fn replay_integrity(
    a: ArchivedEffectCapture,
    output_hash: Option<Seq<char>>,
    witness_hash: Option<Seq<char>>,
) -> Result<(), EffectWitnessError> {
    if trim(a.fingerprint@).len() == 0 || a.kind != output_kind(a.output) {
        Err(EffectWitnessError::KindMismatch)
    } else if captured_result(a.output, a.witness, false, output_hash) is Err {
        captured_result(a.output, a.witness, false, output_hash)
    } else if output_hash != Some(a.output_hash@) || witness_hash != Some(a.witness_hash@) {
        Err(EffectWitnessError::InvalidHash)
    } else {
        Ok(())
    }
}

fn same_text(stored: &String, recomputed: Option<&str>) -> (b: bool)
    ensures
        b == (opt_view(recomputed) == Some(stored@)),
{
    match recomputed {
        Some(h) => chars_eq(&chars_of(stored.as_str()), &chars_of(h)),
        None => false,
    }
}

fn is_blank(s: &String) -> (b: bool)
    ensures
        b == (trim(s@).len() == 0),
{
    trim_chars(&chars_of(s.as_str())).len() == 0
}

impl EffectCapture {
    /// The capture's fields other than its request body.
    pub closed spec fn archived_view(&self) -> ArchivedEffectCapture {
        ArchivedEffectCapture {
            execution_id: self.execution_id,
            effect_id: self.effect_id,
            node_id: self.node_id,
            kind: self.kind,
            fingerprint: self.fingerprint,
            output_hash: self.output_hash,
            witness_hash: self.witness_hash,
            output: self.output,
            witness: self.witness,
        }
    }

    /// Request body carried for the archive, if any.
    pub closed spec fn body(&self) -> Option<Seq<u8>> {
        self.capture_material.body_view()
    }

    /// Builds the capture of a live effect from a handler's checked output. `output_hash`
    /// and `witness_hash` are the canonical hashes of the output and witness (`None` where
    /// they could not be computed). Refused with `InvalidHash` for a blank fingerprint or a
    /// missing hash, and with the pair's error where output and witness do not fit.
    pub fn from_live(
        execution_id: Uid,
        effect_id: Uid,
        node_id: Uid,
        fingerprint: String,
        captured: CapturedEffectOutput,
        output_hash: Option<String>,
        witness_hash: Option<String>,
    ) -> (r: Result<EffectCapture, EffectWitnessError>)
        ensures
            trim(fingerprint@).len() == 0 ==> r == Err::<EffectCapture, EffectWitnessError>(
                EffectWitnessError::InvalidHash,
            ),
            trim(fingerprint@).len() != 0 && captured_result(
                captured.output_view(),
                captured.witness_view(),
                captured.body() is Some,
                match output_hash {
                    Some(h) => Some(h@),
                    None => None,
                },
            ) is Err ==> r == Err::<EffectCapture, EffectWitnessError>(
                captured_result(
                    captured.output_view(),
                    captured.witness_view(),
                    captured.body() is Some,
                    match output_hash {
                        Some(h) => Some(h@),
                        None => None,
                    },
                )->Err_0,
            ),
            trim(fingerprint@).len() != 0 && captured_result(
                captured.output_view(),
                captured.witness_view(),
                captured.body() is Some,
                match output_hash {
                    Some(h) => Some(h@),
                    None => None,
                },
            ) is Ok ==> match r {
                Ok(c) => output_hash matches Some(oh) && witness_hash matches Some(wh) && c.archived_view() == (
                ArchivedEffectCapture {
                    execution_id,
                    effect_id,
                    node_id,
                    kind: output_kind(captured.output_view()),
                    fingerprint,
                    output_hash: oh,
                    witness_hash: wh,
                    output: captured.output_view(),
                    witness: captured.witness_view(),
                }) && c.body() == captured.body(),
                Err(e) => e == EffectWitnessError::InvalidHash && (output_hash is None || witness_hash is None),
            },
    {
        if is_blank(&fingerprint) {
            return Err(EffectWitnessError::InvalidHash);
        }
        let checked = match &output_hash {
            Some(h) => captured.validate(Some(h.as_str())),
            None => captured.validate(None),
        };
        if let Err(e) = checked {
            return Err(e);
        }
        let CapturedEffectOutput { output, witness, capture_material } = captured;
        let kind = output.kind();
        match (output_hash, witness_hash) {
            (Some(oh), Some(wh)) => Ok(EffectCapture {
                execution_id,
                effect_id,
                node_id,
                kind,
                fingerprint,
                output_hash: oh,
                witness_hash: wh,
                output,
                witness,
                capture_material,
            }),
            _ => Err(EffectWitnessError::InvalidHash),
        }
    }

    /// Rebuilds a replay capture from the archive's decoded fields, with no request body,
    /// and checks its integrity at once (see [`EffectCapture::validate_replay_integrity`]).
    pub fn from_archived(
        archived: ArchivedEffectCapture,
        output_hash: Option<&str>,
        witness_hash: Option<&str>,
    ) -> (r: Result<EffectCapture, EffectWitnessError>)
        ensures
            match r {
                Ok(c) => replay_integrity(archived, opt_view(output_hash), opt_view(witness_hash)) is Ok
                    && c.archived_view() == archived && c.body() is None,
                Err(e) => replay_integrity(archived, opt_view(output_hash), opt_view(witness_hash)) == Err::<
                    (),
                    EffectWitnessError,
                >(e),
            },
    {
        let ArchivedEffectCapture {
            execution_id,
            effect_id,
            node_id,
            kind,
            fingerprint,
            output_hash: stored_output_hash,
            witness_hash: stored_witness_hash,
            output,
            witness,
        } = archived;
        let capture = EffectCapture {
            execution_id,
            effect_id,
            node_id,
            kind,
            fingerprint,
            output_hash: stored_output_hash,
            witness_hash: stored_witness_hash,
            output,
            witness,
            capture_material: EffectCaptureMaterial::from_http_request_body(None),
        };
        assert(capture.archived_view() == archived);
        match capture.validate_replay_integrity(output_hash, witness_hash) {
            Ok(()) => Ok(capture),
            Err(e) => Err(e),
        }
    }

    /// The raw request body, only for writing to the archive.
    pub fn request_body(&self) -> (r: Option<&[u8]>)
        ensures
            match r {
                Some(b) => self.body() == Some(b@),
                None => self.body() is None,
            },
    {
        self.capture_material.request_body()
    }

    /// The archive sensitivity the request body must get: secret whenever there is one.
    pub fn request_body_sensitivity(&self) -> (r: Option<EffectCaptureMaterialSensitivity>)
        ensures
            r == (if self.body() is Some {
                Some(EffectCaptureMaterialSensitivity::Secret)
            } else {
                None
            }),
    {
        self.capture_material.request_body_sensitivity()
    }

    /// Checks that a capture rebuilt from the archive still meets the output/witness
    /// integrity contract. `output_hash` and `witness_hash` are the recomputed canonical
    /// hashes of its output and witness (`None` where they could not be computed).
    pub fn validate_replay_integrity(&self, output_hash: Option<&str>, witness_hash: Option<&str>) -> (r: Result<
        (),
        EffectWitnessError,
    >)
        ensures
            r == replay_integrity(self.archived_view(), opt_view(output_hash), opt_view(witness_hash)),
    {
        if is_blank(&self.fingerprint) || self.kind != self.output.kind() {
            return Err(EffectWitnessError::KindMismatch);
        }
        match check_captured(&self.output, &self.witness, false, output_hash) {
            Err(e) => {
                return Err(e);
            },
            Ok(()) => {},
        }
        if !same_text(&self.output_hash, output_hash) || !same_text(&self.witness_hash, witness_hash) {
            return Err(EffectWitnessError::InvalidHash);
        }
        Ok(())
    }
}


/// What is captured live can be replayed: a capture whose output and witness were accepted
/// live (with or without a request body), under a fingerprint that is not blank, passes
/// the replay integrity check against the same output and witness hashes.
pub proof fn law_live_capture_passes_replay_check(
    archived: ArchivedEffectCapture,
    had_request_body: bool,
    output_hash: Seq<char>,
    witness_hash: Seq<char>,
)
    requires
        trim(archived.fingerprint@).len() != 0,
        captured_result(archived.output, archived.witness, had_request_body, Some(output_hash)) is Ok,
        archived.kind == output_kind(archived.output),
        archived.output_hash@ == output_hash,
        archived.witness_hash@ == witness_hash,
    ensures
        replay_integrity(archived, Some(output_hash), Some(witness_hash)) is Ok,
{
}

/// What a live effect does next with its capture.
#[derive(Debug, Clone, Copy, PartialEq, Eq)]
pub enum LiveCaptureAction {
    /// Store the capture durably in the archive, then ask again with the archive's answer.
    Persist,
    /// The run fails with this code and message; nothing is emitted or passed downstream.
    Fail(RuntimeFailureCode, &'static str),
    /// The receipt names the capture: emit its capture event and pass its output on.
    Advance,
}

/// The receipt names exactly the stored capture: its effect, fingerprint and both hashes.
pub open spec fn receipt_names(r: DurableCaptureReceipt, c: ArchivedEffectCapture) -> bool {
    r.effect_id == c.effect_id && r.fingerprint@ == c.fingerprint@ && r.output_hash@ == c.output_hash@
        && r.witness_hash@ == c.witness_hash@
}

/// The next action of a live effect, given its capture (or why it could not be built),
/// the declared kind and the archive's answer so far: an invalid capture, or one of
/// another kind than declared, fails before anything is stored; without an answer the
/// capture is stored; a failed store, or a receipt that names anything else, fails the
/// run; only a matching receipt lets the output advance.
pub open spec fn live_capture_decision(
    declared: EffectKind,
    capture: Result<ArchivedEffectCapture, EffectWitnessError>,
    receipt: Option<Result<DurableCaptureReceipt, EffectArchiveError>>,
) -> LiveCaptureAction {
    match capture {
        Err(_) => LiveCaptureAction::Fail(RuntimeFailureCode::CaptureWitnessInvalid, "effect witness 不符合安全完整性合同"),
        Ok(c) => if c.kind != declared {
            LiveCaptureAction::Fail(RuntimeFailureCode::CaptureWitnessInvalid, "effect 输出类型与 Plan 声明不匹配")
        } else {
            match receipt {
                None => LiveCaptureAction::Persist,
                Some(Err(_)) => LiveCaptureAction::Fail(RuntimeFailureCode::CaptureFailed, "effect durable capture 失败"),
                Some(Ok(r)) => if receipt_names(r, c) {
                    LiveCaptureAction::Advance
                } else {
                    LiveCaptureAction::Fail(
                        RuntimeFailureCode::CaptureReceiptMismatch,
                        "effect durable capture 收据不匹配",
                    )
                },
            }
        },
    }
}

/// The capture's fields, or why it could not be built.
pub open spec fn capture_view(capture: Result<EffectCapture, EffectWitnessError>) -> Result<
    ArchivedEffectCapture,
    EffectWitnessError,
> {
    match capture {
        Ok(c) => Ok(c.archived_view()),
        Err(e) => Err(e),
    }
}

/// Decides the next action of a live effect (see [`live_capture_decision`]). The caller
/// stores the capture when told to, asks again with the archive's answer, and emits the
/// capture event and passes the output on only when told to advance.
pub fn live_capture_step(
    declared: EffectKind,
    capture: &Result<EffectCapture, EffectWitnessError>,
    receipt: &Option<Result<DurableCaptureReceipt, EffectArchiveError>>,
) -> (a: LiveCaptureAction)
    ensures
        a == live_capture_decision(declared, capture_view(*capture), *receipt),
{
    match capture {
        Err(_) => LiveCaptureAction::Fail(RuntimeFailureCode::CaptureWitnessInvalid, "effect witness 不符合安全完整性合同"),
        Ok(c) => {
            if c.kind != declared {
                return LiveCaptureAction::Fail(
                    RuntimeFailureCode::CaptureWitnessInvalid,
                    "effect 输出类型与 Plan 声明不匹配",
                );
            }
            match receipt {
                None => LiveCaptureAction::Persist,
                Some(Err(_)) => LiveCaptureAction::Fail(RuntimeFailureCode::CaptureFailed, "effect durable capture 失败"),
                Some(Ok(r)) => if receipt_matches(
                    r,
                    c.effect_id,
                    c.fingerprint.as_str(),
                    c.output_hash.as_str(),
                    c.witness_hash.as_str(),
                ) {
                    LiveCaptureAction::Advance
                } else {
                    LiveCaptureAction::Fail(
                        RuntimeFailureCode::CaptureReceiptMismatch,
                        "effect durable capture 收据不匹配",
                    )
                },
            }
        },
    }
}

/// Durable before advance: a live output advances only once the archive returned a
/// receipt that names exactly its capture, of the declared kind.
pub proof fn law_live_output_advances_only_after_matching_receipt(
    declared: EffectKind,
    capture: Result<ArchivedEffectCapture, EffectWitnessError>,
    receipt: Option<Result<DurableCaptureReceipt, EffectArchiveError>>,
)
    requires
        live_capture_decision(declared, capture, receipt) == LiveCaptureAction::Advance,
    ensures
        capture is Ok,
        capture->Ok_0.kind == declared,
        receipt matches Some(Ok(r)) && receipt_names(r, capture->Ok_0),
{
}

/// A live capture is stored at most once: before the archive answered, the only way on
/// is to store it (or fail before storing); once it answered, storing is never asked for
/// again.
pub proof fn law_live_capture_stored_at_most_once(
    declared: EffectKind,
    capture: Result<ArchivedEffectCapture, EffectWitnessError>,
    answer: Result<DurableCaptureReceipt, EffectArchiveError>,
)
    ensures
        live_capture_decision(declared, capture, None) != LiveCaptureAction::Advance,
        live_capture_decision(declared, capture, Some(answer)) != LiveCaptureAction::Persist,
        (capture matches Ok(c) && c.kind == declared) ==> live_capture_decision(declared, capture, None)
            == LiveCaptureAction::Persist,
{
}

/// The script of a JS node: its `code` text, where that is a string that is not blank.
pub open spec fn js_code(node: PlanNode) -> Option<Seq<char>> {
    let code = spec_as_str(spec_get(node.config, "code"@));
    if code matches Some(c) && trim(c).len() > 0 {
        code
    } else {
        None
    }
}

/// Reads the script of a JS node; a missing or blank `code` is an internal error.
pub fn parse_js_code(node: &PlanNode) -> (r: Result<String, EffectError>)
    ensures
        match r {
            Ok(code) => js_code(*node) == Some(code@),
            Err(e) => js_code(*node) is None && e.code == EffectErrorCode::Internal
                && e.message@ == "Plan JS 配置无法读取"@,
        },
{
    match get(&node.config, "code") {
        Some(JsonValue::String(code)) => {
            if trim_chars(&chars_of(code.as_str())).len() > 0 {
                return Ok(copy_string(code));
            }
        },
        _ => {},
    }
    Err(EffectError::new(EffectErrorCode::Internal, to_owned_string("Plan JS 配置无法读取")))
}

/// A replayed witness is bound to the current node and input: a QuickJS witness names the
/// hash of the node's script and of the input, an extraction witness the hash of the input;
/// an HTTP witness needs nothing more. `input_hash` is the canonical hash of the current
/// input (`None` where it could not be computed).
pub open spec fn witness_bound(node: PlanNode, input_hash: Option<Seq<char>>, witness: EffectWitness) -> bool {
    match witness {
        EffectWitness::Http(_) => true,
        EffectWitness::QuickJs(w) => js_code(node) matches Some(code) && input_hash matches Some(h)
            && w.script_hash@ == blake3_hex(encode_utf8(code)) && w.input_hash@ == h,
        EffectWitness::Extract(w) => input_hash matches Some(h) && w.input_hash@ == h,
    }
}

/// Checks that a replayed witness is bound to the current node and input.
pub fn replay_witness_matches(node: &PlanNode, input_hash: Option<&str>, witness: &EffectWitness) -> (b: bool)
    ensures
        b == witness_bound(*node, opt_view(input_hash), *witness),
{
    match witness {
        EffectWitness::Http(_) => true,
        EffectWitness::QuickJs(w) => {
            let code = match parse_js_code(node) {
                Ok(code) => code,
                Err(_) => {
                    return false;
                },
            };
            let h = match input_hash {
                Some(h) => h,
                None => {
                    return false;
                },
            };
            let script_hash = quickjs_script_hash(code.as_str());
            chars_eq(&chars_of(w.script_hash.as_str()), &chars_of(script_hash.as_str()))
                && chars_eq(&chars_of(w.input_hash.as_str()), &chars_of(h))
        },
        EffectWitness::Extract(w) => same_text(&w.input_hash, input_hash),
    }
}

} // verus!

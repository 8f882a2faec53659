//! Plan runtime rules: its configuration, the checks an immutable plan must pass before it
//! runs, the effect each node kind performs, and an intent's execution path.

use vstd::prelude::*;

use crate::graph_reach::Uid;
use crate::json::{get, spec_as_str, spec_get, JsonValue};
use crate::model::{EffectDeclaration, EffectKind, ExecutionPlan, IntentEntry, PlanNode, PlanNodeKind, StandardIntent};
use crate::plan_path::{execution_path_between, is_execution_path, path_outcome, ExecutionPath, PathDefect};
use crate::text::{chars_of, trim, trim_chars};

verus! {

/// Plan schema version this runtime supports.
pub const SUPPORTED_PLAN_SCHEMA_VERSION: u32 = 1;

/// Fixed concurrency and version settings of a plan runtime.
#[derive(Debug, Clone, PartialEq, Eq)]
pub struct PlanRuntimeConfig {
    /// Compiler identity accepted; must equal the plan's exactly.
    pub compiler_version: String,
    /// Plan schema version accepted.
    pub plan_schema_version: u32,
    /// Capacity of a session's event channel.
    pub event_channel_capacity: usize,
    /// Executions running at once.
    pub max_concurrent_executions: usize,
    /// Effects running at once, over all sources.
    pub max_concurrent_effects: usize,
    /// Effects running at once for one source.
    pub max_concurrent_effects_per_source: usize,
}

/// Why a plan cannot start.
#[derive(Debug, Clone, PartialEq, Eq)]
pub enum PlanRuntimeError {
    /// The runtime configuration has a zero capacity or an empty compiler identity.
    InvalidConfiguration(&'static str),
    /// No Tokio runtime is running on this thread.
    MissingTokioRuntime,
    /// The plan schema differs from the supported one.
    SchemaVersionMismatch {
        /// Version the runtime supports.
        expected: u32,
        /// Version the plan declares.
        actual: u32,
    },
    /// The plan's compiler identity differs from the pinned one.
    CompilerVersionMismatch,
    /// The recomputed plan hash differs.
    PlanHashMismatch,
    /// A referenced node is missing.
    MissingNode(Uid),
    /// The plan does not declare the requested intent.
    MissingIntent,
    /// The plan's structure, effect declarations or node configuration break the contract.
    InvalidPlan(&'static str),
    /// The plan holds a control-flow node the runtime does not support.
    UnsupportedControlFlow,
    /// The plan could not be serialized canonically.
    CanonicalSerialization,
}

/// Stable category of a failure during a run.
#[derive(Debug, Clone, Copy, PartialEq, Eq, Structural)]
pub enum RuntimeFailureCode {
    /// The grant refused an effect.
    CapabilityDenied,
    /// An effect adapter failed.
    EffectFailed,
    /// A live effect got no durable capture receipt.
    CaptureFailed,
    /// The handler's output or witness breaks the type or safety contract.
    CaptureWitnessInvalid,
    /// The archive receipt does not match the effect just run.
    CaptureReceiptMismatch,
    /// The replay archive lacks a record.
    ReplayCaptureMissing,
    /// A replay record belongs to another execution, node or effect.
    ReplayRecordMismatch,
    /// The replay fingerprint differs from the current plan and input.
    ReplayFingerprintMismatch,
    /// The replayed output fails its hash check.
    ReplayOutputHashMismatch,
    /// The replay witness is missing, damaged, of another kind or unsafe.
    ReplayWitnessMismatch,
    /// Types between plan nodes do not match.
    InputTypeMismatch,
    /// An internal invariant of the runtime broke.
    Internal,
}

/// Result of checking a runtime configuration: the compiler identity first, then each
/// capacity in declaration order.
pub open spec fn config_check(c: PlanRuntimeConfig) -> Option<Seq<char>> {
    if trim(c.compiler_version@).len() == 0 {
        Some("compiler_version 不能为空"@)
    } else if c.plan_schema_version == 0 {
        Some("plan_schema_version 必须大于零"@)
    } else if c.event_channel_capacity == 0 {
        Some("event_channel_capacity 必须大于零"@)
    } else if c.max_concurrent_executions == 0 {
        Some("max_concurrent_executions 必须大于零"@)
    } else if c.max_concurrent_effects == 0 {
        Some("max_concurrent_effects 必须大于零"@)
    } else if c.max_concurrent_effects_per_source == 0 {
        Some("max_concurrent_effects_per_source 必须大于零"@)
    } else {
        None
    }
}

/// Checks a runtime configuration: an empty compiler identity or a zero capacity is refused
/// with the message naming it.
pub fn check_runtime_config(config: &PlanRuntimeConfig) -> (r: Result<(), PlanRuntimeError>)
    ensures
        match config_check(*config) {
            None => r is Ok,
            Some(msg) => r matches Err(PlanRuntimeError::InvalidConfiguration(m)) && m@ == msg,
        },
{
    let cv = trim_chars(&chars_of(config.compiler_version.as_str()));
    if cv.len() == 0 {
        return Err(PlanRuntimeError::InvalidConfiguration("compiler_version 不能为空"));
    }
    if config.plan_schema_version == 0 {
        return Err(PlanRuntimeError::InvalidConfiguration("plan_schema_version 必须大于零"));
    }
    if config.event_channel_capacity == 0 {
        return Err(PlanRuntimeError::InvalidConfiguration("event_channel_capacity 必须大于零"));
    }
    if config.max_concurrent_executions == 0 {
        return Err(PlanRuntimeError::InvalidConfiguration("max_concurrent_executions 必须大于零"));
    }
    if config.max_concurrent_effects == 0 {
        return Err(PlanRuntimeError::InvalidConfiguration("max_concurrent_effects 必须大于零"));
    }
    if config.max_concurrent_effects_per_source == 0 {
        return Err(PlanRuntimeError::InvalidConfiguration("max_concurrent_effects_per_source 必须大于零"));
    }
    Ok(())
}

/// The effect a node kind performs, if any.
pub open spec fn effect_kind_of(kind: PlanNodeKind) -> Option<EffectKind> {
    match kind {
        PlanNodeKind::Http => Some(EffectKind::Http),
        PlanNodeKind::Js => Some(EffectKind::QuickJs),
        PlanNodeKind::Extract => Some(EffectKind::Extract),
        _ => None,
    }
}

/// The effect a node kind performs, if any.
pub fn expected_effect_kind(kind: &PlanNodeKind) -> (r: Option<EffectKind>)
    ensures
        r == effect_kind_of(*kind),
{
    match kind {
        PlanNodeKind::Http => Some(EffectKind::Http),
        PlanNodeKind::Js => Some(EffectKind::QuickJs),
        PlanNodeKind::Extract => Some(EffectKind::Extract),
        PlanNodeKind::Mapper | PlanNodeKind::Merge | PlanNodeKind::Condition | PlanNodeKind::Loop => None,
    }
}

/// Index of the first entry for `intent`, if any.
pub open spec fn find_intent(entries: Seq<(StandardIntent, IntentEntry)>, intent: StandardIntent) -> Option<int> {
    if exists|i: int| 0 <= i < entries.len() && (#[trigger] entries[i]).0 == intent {
        Some(choose|i: int| 0 <= i < entries.len() && (#[trigger] entries[i]).0 == intent && forall|j: int|
            0 <= j < i ==> entries[j].0 != intent)
    } else {
        None
    }
}

/// The message of each path defect.
pub open spec fn path_defect_message(d: PathDefect) -> Seq<char> {
    match d {
        PathDefect::EntryCannotReachMapper => "意图入口无法到达 Mapper"@,
        PathDefect::MultipleUpstreams => "Plan 节点有多个上游输入"@,
        PathDefect::EntryHasUpstream => "意图入口不能有上游依赖"@,
        PathDefect::MissingUpstream => "Plan 节点缺少上游输入"@,
    }
}

/// The unique path that `intent` runs through `plan`, from its entry node to its mapper.
pub fn execution_path(plan: &ExecutionPlan, intent: StandardIntent) -> (r: Result<ExecutionPath, PlanRuntimeError>)
    ensures
        (forall|i: int| 0 <= i < plan.intent_entries@.len() ==> (#[trigger] plan.intent_entries@[i]).0 != intent)
            ==> r == Err::<ExecutionPath, PlanRuntimeError>(PlanRuntimeError::MissingIntent),
        forall|i: int|
            0 <= i < plan.intent_entries@.len() && (#[trigger] plan.intent_entries@[i]).0 == intent && (forall|j: int|
                0 <= j < i ==> plan.intent_entries@[j].0 != intent) ==> {
                let entry = plan.intent_entries@[i].1;
                match r {
                    Ok(path) => path_outcome(plan.edges@, entry.entry_node, entry.mapper_output) is Ok
                        && is_execution_path(plan.edges@, entry.entry_node, entry.mapper_output, path),
                    Err(PlanRuntimeError::InvalidPlan(m)) => exists|d: PathDefect|
                        path_outcome(plan.edges@, entry.entry_node, entry.mapper_output) == Err::<(), PathDefect>(d)
                            && m@ == #[trigger] path_defect_message(d),
                    _ => false,
                }
            },
{
    let mut i: usize = 0;
    while i < plan.intent_entries.len()
        invariant
            i <= plan.intent_entries@.len(),
            forall|j: int| 0 <= j < i ==> plan.intent_entries@[j].0 != intent,
        decreases plan.intent_entries@.len() - i,
    {
        let (key, entry) = plan.intent_entries[i];
        if key == intent {
            let res = execution_path_between(&plan.edges, entry.entry_node, entry.mapper_output);
            let out = match res {
                Ok(path) => Ok(path),
                Err(d) => {
                    let m = match d {
                        PathDefect::EntryCannotReachMapper => "意图入口无法到达 Mapper",
                        PathDefect::MultipleUpstreams => "Plan 节点有多个上游输入",
                        PathDefect::EntryHasUpstream => "意图入口不能有上游依赖",
                        PathDefect::MissingUpstream => "Plan 节点缺少上游输入",
                    };
                    assert(m@ == path_defect_message(d));
                    Err(PlanRuntimeError::InvalidPlan(m))
                },
            };
            proof {
                assert forall|k: int|
                    0 <= k < plan.intent_entries@.len() && (#[trigger] plan.intent_entries@[k]).0 == intent && (forall|j: int|
                        0 <= j < k ==> plan.intent_entries@[j].0 != intent) implies k == i by {
                    if k > i {
                        assert(plan.intent_entries@[i as int].0 == intent);
                    }
                }
            }
            return out;
        }
        i = i + 1;
    }
    Err(PlanRuntimeError::MissingIntent)
}

/// The node's `code` field is a string that is not blank.
pub open spec fn js_code_ok(config: JsonValue) -> bool {
    spec_as_str(spec_get(config, "code"@)) matches Some(c) && trim(c).len() > 0
}

/// Result of checking one node's configuration. `typed_ok` says whether the configuration
/// decodes as the typed spec of an HTTP, extraction or mapper node.
pub open spec fn node_check(node: PlanNode, typed_ok: bool) -> Option<PlanRuntimeError> {
    match node.kind {
        PlanNodeKind::Http => if typed_ok { None } else { Some(PlanRuntimeError::InvalidPlan("HTTP 节点配置无效")) },
        PlanNodeKind::Js => if js_code_ok(node.config) { None } else { Some(PlanRuntimeError::InvalidPlan("JS 节点配置无效")) },
        PlanNodeKind::Extract => if typed_ok { None } else { Some(PlanRuntimeError::InvalidPlan("Extract 节点配置无效")) },
        PlanNodeKind::Mapper => if typed_ok { None } else { Some(PlanRuntimeError::InvalidPlan("Mapper 节点配置无效")) },
        _ => Some(PlanRuntimeError::UnsupportedControlFlow),
    }
}

/// Some node before index `n` has identifier `id`.
pub open spec fn id_before(nodes: Seq<PlanNode>, n: int, id: Uid) -> bool {
    exists|j: int| 0 <= j < n && (#[trigger] nodes[j]).id == id
}

/// First failure among the first `n` nodes: a repeated identifier, else the node's own check.
pub open spec fn nodes_result(nodes: Seq<PlanNode>, typed_ok: Seq<bool>, n: int) -> Option<PlanRuntimeError>
    decreases n,
{
    if n <= 0 {
        None
    } else {
        match nodes_result(nodes, typed_ok, n - 1) {
            Some(e) => Some(e),
            None => if id_before(nodes, n - 1, nodes[n - 1].id) {
                Some(PlanRuntimeError::InvalidPlan("Plan 节点 ID 重复"))
            } else {
                node_check(nodes[n - 1], typed_ok[n - 1])
            },
        }
    }
}

/// Index of the first node with identifier `id`.
pub open spec fn first_node(nodes: Seq<PlanNode>, id: Uid, k: int) -> bool {
    0 <= k < nodes.len() && nodes[k].id == id && !id_before(nodes, k, id)
}

/// First failure of the intent entry at index `i`.
pub open spec fn entry_check(nodes: Seq<PlanNode>, key: StandardIntent, entry: IntentEntry) -> Option<PlanRuntimeError> {
    if entry.intent != key {
        Some(PlanRuntimeError::InvalidPlan("意图入口键与内容不一致"))
    } else if !id_before(nodes, nodes.len() as int, entry.mapper_output) {
        Some(PlanRuntimeError::MissingNode(entry.mapper_output))
    } else if exists|k: int| #[trigger] first_node(nodes, entry.mapper_output, k) && nodes[k].kind != PlanNodeKind::Mapper {
        Some(PlanRuntimeError::InvalidPlan("意图输出节点必须是 Mapper"))
    } else if !id_before(nodes, nodes.len() as int, entry.entry_node) {
        Some(PlanRuntimeError::MissingNode(entry.entry_node))
    } else {
        None
    }
}

/// First failure among the first `n` intent entries.
pub open spec fn entries_result(nodes: Seq<PlanNode>, entries: Seq<(StandardIntent, IntentEntry)>, n: int) -> Option<PlanRuntimeError>
    decreases n,
{
    if n <= 0 {
        None
    } else {
        match entries_result(nodes, entries, n - 1) {
            Some(e) => Some(e),
            None => entry_check(nodes, entries[n - 1].0, entries[n - 1].1),
        }
    }
}

/// Some effect declaration before index `n` is for node `id`.
pub open spec fn declared_before(effects: Seq<EffectDeclaration>, n: int, id: Uid) -> bool {
    exists|j: int| 0 <= j < n && (#[trigger] effects[j]).node_id == id
}

/// First failure of the effect declaration at index `i`: a repeat, a missing node, or a
/// kind that differs from the one its node performs.
pub open spec fn declaration_check(nodes: Seq<PlanNode>, effects: Seq<EffectDeclaration>, i: int) -> Option<PlanRuntimeError> {
    let e = effects[i];
    if declared_before(effects, i, e.node_id) {
        Some(PlanRuntimeError::InvalidPlan("effect 声明重复"))
    } else if !id_before(nodes, nodes.len() as int, e.node_id) {
        Some(PlanRuntimeError::MissingNode(e.node_id))
    } else if exists|k: int| #[trigger] first_node(nodes, e.node_id, k) && effect_kind_of(nodes[k].kind) != Some(e.kind) {
        Some(PlanRuntimeError::InvalidPlan("effect 声明与节点类型不一致"))
    } else {
        None
    }
}

/// First failure among the first `n` effect declarations.
pub open spec fn declarations_result(nodes: Seq<PlanNode>, effects: Seq<EffectDeclaration>, n: int) -> Option<PlanRuntimeError>
    decreases n,
{
    if n <= 0 {
        None
    } else {
        match declarations_result(nodes, effects, n - 1) {
            Some(e) => Some(e),
            None => declaration_check(nodes, effects, n - 1),
        }
    }
}

/// Every effect node is declared.
pub open spec fn effect_nodes_declared(nodes: Seq<PlanNode>, effects: Seq<EffectDeclaration>) -> bool {
    forall|k: int| 0 <= k < nodes.len() && (#[trigger] effect_kind_of(nodes[k].kind)) is Some ==> declared_before(effects, effects.len() as int, nodes[k].id)
}

/// Some edge names a node the plan does not have.
pub open spec fn dangling_edge(plan: ExecutionPlan) -> bool {
    let nodes = plan.nodes@;
    exists|e: int| 0 <= e < plan.edges@.len() && (!id_before(nodes, nodes.len() as int, (#[trigger] plan.edges@[e]).0)
        || !id_before(nodes, nodes.len() as int, plan.edges@[e].1))
}

/// The checks after the effect declarations: every effect node is declared.
pub open spec fn after_declarations(plan: ExecutionPlan) -> Result<(), PlanRuntimeError> {
    if !effect_nodes_declared(plan.nodes@, plan.effects@) {
        Err(PlanRuntimeError::InvalidPlan("effect 节点缺少声明"))
    } else {
        Ok(())
    }
}

/// The checks after the intent entries.
pub open spec fn after_entries(plan: ExecutionPlan) -> Result<(), PlanRuntimeError> {
    match declarations_result(plan.nodes@, plan.effects@, plan.effects@.len() as int) {
        Some(e) => Err(e),
        None => after_declarations(plan),
    }
}

/// The checks after the edges.
pub open spec fn after_edges(plan: ExecutionPlan) -> Result<(), PlanRuntimeError> {
    match entries_result(plan.nodes@, plan.intent_entries@, plan.intent_entries@.len() as int) {
        Some(e) => Err(e),
        None => after_entries(plan),
    }
}

/// The checks after the nodes.
pub open spec fn after_nodes(plan: ExecutionPlan) -> Result<(), PlanRuntimeError> {
    if dangling_edge(plan) {
        Err(PlanRuntimeError::InvalidPlan("Plan 边引用不存在的节点"))
    } else {
        after_edges(plan)
    }
}

/// The checks after the pins.
pub open spec fn after_pins(plan: ExecutionPlan, typed_ok: Seq<bool>) -> Result<(), PlanRuntimeError> {
    match nodes_result(plan.nodes@, typed_ok, plan.nodes@.len() as int) {
        Some(e) => Err(e),
        None => after_nodes(plan),
    }
}

/// What checking a plan against a runtime configuration decides: the pins (schema,
/// compiler, recomputed hash, definition hash), then the nodes, the edges, the intent
/// entries and the effect declarations, each in order; the first failure is reported.
pub open spec fn plan_check(
    plan: ExecutionPlan,
    config: PlanRuntimeConfig,
    calculated_hash: Seq<char>,
    typed_ok: Seq<bool>,
) -> Result<(), PlanRuntimeError> {
    if plan.schema_version != config.plan_schema_version {
        Err(PlanRuntimeError::SchemaVersionMismatch { expected: config.plan_schema_version, actual: plan.schema_version })
    } else if plan.compiler_version@ != config.compiler_version@ {
        Err(PlanRuntimeError::CompilerVersionMismatch)
    } else if plan.plan_hash@ != calculated_hash {
        Err(PlanRuntimeError::PlanHashMismatch)
    } else if trim(plan.definition_hash@).len() == 0 {
        Err(PlanRuntimeError::InvalidPlan("definition_hash 不能为空"))
    } else {
        after_pins(plan, typed_ok)
    }
}

proof fn lemma_nodes_pass_each_check(nodes: Seq<PlanNode>, typed_ok: Seq<bool>, n: int)
    requires
        nodes_result(nodes, typed_ok, n) is None,
    ensures
        forall|i: int| 0 <= i < n ==> node_check(#[trigger] nodes[i], typed_ok[i]) is None,
    decreases n,
{
    if n > 0 {
        lemma_nodes_pass_each_check(nodes, typed_ok, n - 1);
    }
}

/// A plan is accepted only if every node is runnable as configured: an HTTP, extraction
/// or mapper node's configuration decodes as its typed spec, a JS node has a script, and
/// no node is a control-flow node.
pub proof fn law_accepted_plans_have_typed_configs(
    plan: ExecutionPlan,
    config: PlanRuntimeConfig,
    calculated_hash: Seq<char>,
    typed_ok: Seq<bool>,
    i: int,
)
    requires
        plan_check(plan, config, calculated_hash, typed_ok) is Ok,
        0 <= i < plan.nodes@.len(),
    ensures
        plan.nodes@[i].kind == PlanNodeKind::Http || plan.nodes@[i].kind == PlanNodeKind::Extract
            || plan.nodes@[i].kind == PlanNodeKind::Mapper ==> typed_ok[i],
        plan.nodes@[i].kind == PlanNodeKind::Js ==> js_code_ok(plan.nodes@[i].config),
        plan.nodes@[i].kind != PlanNodeKind::Merge && plan.nodes@[i].kind != PlanNodeKind::Condition
            && plan.nodes@[i].kind != PlanNodeKind::Loop,
{
    lemma_nodes_pass_each_check(plan.nodes@, typed_ok, plan.nodes@.len() as int);
    assert(node_check(plan.nodes@[i], typed_ok[i]) is None);
}

/// A node whose configuration does not decode as its typed spec makes the whole plan
/// refused, whatever else it holds.
pub proof fn law_untyped_config_refuses_plan(
    plan: ExecutionPlan,
    config: PlanRuntimeConfig,
    calculated_hash: Seq<char>,
    typed_ok: Seq<bool>,
    i: int,
)
    requires
        0 <= i < plan.nodes@.len(),
        plan.nodes@[i].kind == PlanNodeKind::Http || plan.nodes@[i].kind == PlanNodeKind::Extract
            || plan.nodes@[i].kind == PlanNodeKind::Mapper,
        !typed_ok[i],
    ensures
        plan_check(plan, config, calculated_hash, typed_ok) is Err,
{
    if plan_check(plan, config, calculated_hash, typed_ok) is Ok {
        law_accepted_plans_have_typed_configs(plan, config, calculated_hash, typed_ok, i);
    }
}

proof fn lemma_nodes_result_stays(nodes: Seq<PlanNode>, typed_ok: Seq<bool>, k: int, m: int)
    requires
        0 <= k <= m,
        nodes_result(nodes, typed_ok, k) is Some,
    ensures
        nodes_result(nodes, typed_ok, m) == nodes_result(nodes, typed_ok, k),
    decreases m - k,
{
    if m > k {
        lemma_nodes_result_stays(nodes, typed_ok, k, m - 1);
    }
}

proof fn lemma_entries_result_stays(nodes: Seq<PlanNode>, entries: Seq<(StandardIntent, IntentEntry)>, k: int, m: int)
    requires
        0 <= k <= m,
        entries_result(nodes, entries, k) is Some,
    ensures
        entries_result(nodes, entries, m) == entries_result(nodes, entries, k),
    decreases m - k,
{
    if m > k {
        lemma_entries_result_stays(nodes, entries, k, m - 1);
    }
}

proof fn lemma_declarations_result_stays(nodes: Seq<PlanNode>, effects: Seq<EffectDeclaration>, k: int, m: int)
    requires
        0 <= k <= m,
        declarations_result(nodes, effects, k) is Some,
    ensures
        declarations_result(nodes, effects, m) == declarations_result(nodes, effects, k),
    decreases m - k,
{
    if m > k {
        lemma_declarations_result_stays(nodes, effects, k, m - 1);
    }
}

/// Index of the first node with identifier `id`, if any.
fn find_node(nodes: &Vec<PlanNode>, id: Uid) -> (r: Option<usize>)
    ensures
        match r {
            Some(k) => first_node(nodes@, id, k as int),
            None => !id_before(nodes@, nodes@.len() as int, id),
        },
{
    let mut k: usize = 0;
    while k < nodes.len()
        invariant
            k <= nodes@.len(),
            !id_before(nodes@, k as int, id),
        decreases nodes@.len() - k,
    {
        if nodes[k].id == id {
            return Some(k);
        }
        proof {
            assert forall|j: int| 0 <= j < k + 1 implies (#[trigger] nodes@[j]).id != id by {
                if j < k {
                    assert(!(0 <= j < k && nodes@[j].id == id));
                }
            }
        }
        k = k + 1;
    }
    None
}

/// Some node before index `n` has identifier `id`.
fn id_in_prefix(nodes: &Vec<PlanNode>, n: usize, id: Uid) -> (b: bool)
    requires
        n <= nodes@.len(),
    ensures
        b == id_before(nodes@, n as int, id),
{
    let mut k: usize = 0;
    while k < n
        invariant
            n <= nodes@.len(),
            k <= n,
            !id_before(nodes@, k as int, id),
        decreases n - k,
    {
        if nodes[k].id == id {
            return true;
        }
        proof {
            assert forall|j: int| 0 <= j < k + 1 implies (#[trigger] nodes@[j]).id != id by {
                if j < k {
                    assert(!(0 <= j < k && nodes@[j].id == id));
                }
            }
        }
        k = k + 1;
    }
    false
}

/// Some declaration before index `n` is for node `id`.
fn declared_in_prefix(effects: &Vec<EffectDeclaration>, n: usize, id: Uid) -> (b: bool)
    requires
        n <= effects@.len(),
    ensures
        b == declared_before(effects@, n as int, id),
{
    let mut k: usize = 0;
    while k < n
        invariant
            n <= effects@.len(),
            k <= n,
            !declared_before(effects@, k as int, id),
        decreases n - k,
    {
        if effects[k].node_id == id {
            return true;
        }
        proof {
            assert forall|j: int| 0 <= j < k + 1 implies (#[trigger] effects@[j]).node_id != id by {
                if j < k {
                    assert(!(0 <= j < k && effects@[j].node_id == id));
                }
            }
        }
        k = k + 1;
    }
    false
}

/// Checks one node's configuration.
fn check_node(node: &PlanNode, typed_ok: bool) -> (r: Option<PlanRuntimeError>)
    ensures
        r == node_check(*node, typed_ok),
{
    match node.kind {
        PlanNodeKind::Http => if typed_ok { None } else { Some(PlanRuntimeError::InvalidPlan("HTTP 节点配置无效")) },
        PlanNodeKind::Js => {
            let ok = match get(&node.config, "code") {
                Some(JsonValue::String(c)) => trim_chars(&chars_of(c.as_str())).len() > 0,
                _ => false,
            };
            proof {
                reveal_strlit("code");
            }
            if ok { None } else { Some(PlanRuntimeError::InvalidPlan("JS 节点配置无效")) }
        },
        PlanNodeKind::Extract => if typed_ok { None } else { Some(PlanRuntimeError::InvalidPlan("Extract 节点配置无效")) },
        PlanNodeKind::Mapper => if typed_ok { None } else { Some(PlanRuntimeError::InvalidPlan("Mapper 节点配置无效")) },
        PlanNodeKind::Merge | PlanNodeKind::Condition | PlanNodeKind::Loop => Some(PlanRuntimeError::UnsupportedControlFlow),
    }
}

/// Checks an immutable plan against the runtime configuration before it runs.
///
/// `calculated_plan_hash` is the plan's canonical hash recomputed without its own hash
/// field; `typed_config_ok[i]` says whether node `i`'s configuration decodes as the typed
/// spec of its kind (read for HTTP, extraction and mapper nodes).
pub fn validate_plan(
    plan: &ExecutionPlan,
    config: &PlanRuntimeConfig,
    calculated_plan_hash: &str,
    typed_config_ok: &Vec<bool>,
) -> (r: Result<(), PlanRuntimeError>)
    requires
        typed_config_ok@.len() == plan.nodes@.len(),
    ensures
        r == plan_check(*plan, *config, calculated_plan_hash@, typed_config_ok@),
{
    let ghost nodes = plan.nodes@;
    let ghost typed = typed_config_ok@;
    if plan.schema_version != config.plan_schema_version {
        return Err(PlanRuntimeError::SchemaVersionMismatch {
            expected: config.plan_schema_version,
            actual: plan.schema_version,
        });
    }
    if !crate::text::chars_eq(&chars_of(plan.compiler_version.as_str()), &chars_of(config.compiler_version.as_str())) {
        return Err(PlanRuntimeError::CompilerVersionMismatch);
    }
    if !crate::text::chars_eq(&chars_of(plan.plan_hash.as_str()), &chars_of(calculated_plan_hash)) {
        return Err(PlanRuntimeError::PlanHashMismatch);
    }
    if trim_chars(&chars_of(plan.definition_hash.as_str())).len() == 0 {
        return Err(PlanRuntimeError::InvalidPlan("definition_hash 不能为空"));
    }
    let mut i: usize = 0;
    while i < plan.nodes.len()
        invariant
            nodes == plan.nodes@,
            typed == typed_config_ok@,
            typed.len() == nodes.len(),
            i <= nodes.len(),
            nodes_result(nodes, typed, i as int) is None,
            plan_check(*plan, *config, calculated_plan_hash@, typed_config_ok@) == after_pins(*plan, typed),
        decreases nodes.len() - i,
    {
        if id_in_prefix(&plan.nodes, i, plan.nodes[i].id) {
            proof {
                lemma_nodes_result_stays(nodes, typed, i + 1, nodes.len() as int);
            }
            return Err(PlanRuntimeError::InvalidPlan("Plan 节点 ID 重复"));
        }
        match check_node(&plan.nodes[i], typed_config_ok[i]) {
            Some(e) => {
                proof {
                    lemma_nodes_result_stays(nodes, typed, i + 1, nodes.len() as int);
                }
                return Err(e);
            },
            None => {},
        }
        i = i + 1;
    }
    let mut e: usize = 0;
    while e < plan.edges.len()
        invariant
            nodes == plan.nodes@,
            e <= plan.edges@.len(),
            forall|j: int| 0 <= j < e ==> id_before(nodes, nodes.len() as int, (#[trigger] plan.edges@[j]).0)
                && id_before(nodes, nodes.len() as int, plan.edges@[j].1),
            plan_check(*plan, *config, calculated_plan_hash@, typed_config_ok@) == after_nodes(*plan),
        decreases plan.edges@.len() - e,
    {
        let (from, to) = plan.edges[e];
        if !id_in_prefix(&plan.nodes, plan.nodes.len(), from) || !id_in_prefix(&plan.nodes, plan.nodes.len(), to) {
            assert(plan.edges@[e as int] == (from, to));
            assert(dangling_edge(*plan));
            return Err(PlanRuntimeError::InvalidPlan("Plan 边引用不存在的节点"));
        }
        e = e + 1;
    }
    let mut t: usize = 0;
    while t < plan.intent_entries.len()
        invariant
            nodes == plan.nodes@,
            t <= plan.intent_entries@.len(),
            entries_result(nodes, plan.intent_entries@, t as int) is None,
            plan_check(*plan, *config, calculated_plan_hash@, typed_config_ok@) == after_edges(*plan),
        decreases plan.intent_entries@.len() - t,
    {
        let (key, entry) = plan.intent_entries[t];
        assert(plan.intent_entries@[t as int] == (key, entry));
        proof {
            if entries_result(nodes, plan.intent_entries@, t + 1) is Some {
                lemma_entries_result_stays(nodes, plan.intent_entries@, t + 1, plan.intent_entries@.len() as int);
            }
        }
        if entry.intent != key {
            return Err(PlanRuntimeError::InvalidPlan("意图入口键与内容不一致"));
        }
        match find_node(&plan.nodes, entry.mapper_output) {
            None => {
                return Err(PlanRuntimeError::MissingNode(entry.mapper_output));
            },
            Some(k) => {
                proof {
                    assert forall|k2: int| #[trigger] first_node(nodes, entry.mapper_output, k2) implies k2 == k by {
                        if k2 < k {
                            assert(nodes[k2].id == entry.mapper_output);
                        } else if k2 > k {
                            assert(nodes[k as int].id == entry.mapper_output);
                        }
                    }
                }
                if plan.nodes[k].kind != PlanNodeKind::Mapper {
                    return Err(PlanRuntimeError::InvalidPlan("意图输出节点必须是 Mapper"));
                }
            },
        }
        if !id_in_prefix(&plan.nodes, plan.nodes.len(), entry.entry_node) {
            return Err(PlanRuntimeError::MissingNode(entry.entry_node));
        }
        t = t + 1;
    }
    let mut d: usize = 0;
    while d < plan.effects.len()
        invariant
            nodes == plan.nodes@,
            d <= plan.effects@.len(),
            declarations_result(nodes, plan.effects@, d as int) is None,
            plan_check(*plan, *config, calculated_plan_hash@, typed_config_ok@) == after_entries(*plan),
        decreases plan.effects@.len() - d,
    {
        let decl = &plan.effects[d];
        proof {
            if declarations_result(nodes, plan.effects@, d + 1) is Some {
                lemma_declarations_result_stays(nodes, plan.effects@, d + 1, plan.effects@.len() as int);
            }
        }
        if declared_in_prefix(&plan.effects, d, decl.node_id) {
            return Err(PlanRuntimeError::InvalidPlan("effect 声明重复"));
        }
        match find_node(&plan.nodes, decl.node_id) {
            None => {
                return Err(PlanRuntimeError::MissingNode(decl.node_id));
            },
            Some(k) => {
                proof {
                    assert forall|k2: int| #[trigger] first_node(nodes, decl.node_id, k2) implies k2 == k by {
                        if k2 < k {
                            assert(nodes[k2].id == decl.node_id);
                        } else if k2 > k {
                            assert(nodes[k as int].id == decl.node_id);
                        }
                    }
                }
                if expected_effect_kind(&plan.nodes[k].kind) != Some(decl.kind) {
                    return Err(PlanRuntimeError::InvalidPlan("effect 声明与节点类型不一致"));
                }
            },
        }
        d = d + 1;
    }
    let mut n: usize = 0;
    while n < plan.nodes.len()
        invariant
            nodes == plan.nodes@,
            n <= nodes.len(),
            forall|k: int| 0 <= k < n && (#[trigger] effect_kind_of(nodes[k].kind)) is Some ==> declared_before(plan.effects@, plan.effects@.len() as int, nodes[k].id),
            plan_check(*plan, *config, calculated_plan_hash@, typed_config_ok@) == after_declarations(*plan),
        decreases nodes.len() - n,
    {
        if expected_effect_kind(&plan.nodes[n].kind).is_some() && !declared_in_prefix(&plan.effects, plan.effects.len(), plan.nodes[n].id) {
            assert(effect_kind_of(nodes[n as int].kind) is Some);
            return Err(PlanRuntimeError::InvalidPlan("effect 节点缺少声明"));
        }
        n = n + 1;
    }
    Ok(())
}

} // verus!

//! The decisions of running an execution path: for each position on the path, which node
//! runs next, with which input, or how the run ends. The caller performs each step (an
//! effect or a mapping), records the confirmed outputs and asks for the next step.

use vstd::prelude::*;

use crate::graph_reach::Uid;
use crate::model::{EffectDeclaration, ExecutionPlan, PlanNode, PlanNodeKind, StandardIntent};
use crate::plan_path::ExecutionPath;
use crate::plan_runtime::{find_intent, RuntimeFailureCode};
use crate::scheduling::{ExecutionFailure, RunOutcome};
use crate::text::to_owned_string;

verus! {

/// Where a node's input comes from.
#[derive(Debug, Clone, Copy, PartialEq, Eq, Structural)]
pub enum StepInput {
    /// The request's standard intent input.
    Intent,
    /// The confirmed output of the given upstream node.
    Upstream(Uid),
}

/// What to do at a position of the path.
#[derive(Debug, Clone, PartialEq, Eq)]
pub enum PathStep {
    /// Run the effect of `plan.nodes[node]`, declared by `plan.effects[declaration]`.
    Effect {
        /// Index of the node in the plan.
        node: usize,
        /// Index of its effect declaration in the plan.
        declaration: usize,
        /// Where its input comes from.
        input: StepInput,
    },
    /// Map the records reaching the mapper `plan.nodes[node]`.
    Mapper {
        /// Index of the node in the plan.
        node: usize,
        /// Where its input comes from.
        input: StepInput,
    },
    /// The run ends.
    Finish(RunOutcome),
}

/// Index of the first element that satisfies `p`.
pub open spec fn first_match<A>(s: Seq<A>, p: spec_fn(A) -> bool) -> Option<int>
    decreases s.len(),
{
    if s.len() == 0 {
        None
    } else if p(s[0]) {
        Some(0)
    } else {
        match first_match(s.drop_first(), p) {
            Some(i) => Some(i + 1),
            None => None,
        }
    }
}

proof fn lemma_first_match_at<A>(s: Seq<A>, p: spec_fn(A) -> bool, i: int)
    requires
        0 <= i < s.len(),
        p(s[i]),
        forall|j: int| 0 <= j < i ==> !p(#[trigger] s[j]),
    ensures
        first_match(s, p) == Some(i),
    decreases s.len(),
{
    if i > 0 {
        let t = s.drop_first();
        assert(!p(s[0]));
        assert forall|j: int| 0 <= j < i - 1 implies !p(#[trigger] t[j]) by {
            assert(t[j] == s[j + 1]);
        }
        lemma_first_match_at(t, p, i - 1);
    }
}

proof fn lemma_first_match_none<A>(s: Seq<A>, p: spec_fn(A) -> bool)
    requires
        forall|j: int| 0 <= j < s.len() ==> !p(#[trigger] s[j]),
    ensures
        first_match(s, p) is None,
    decreases s.len(),
{
    if s.len() > 0 {
        let t = s.drop_first();
        assert(!p(s[0]));
        assert forall|j: int| 0 <= j < t.len() implies !p(#[trigger] t[j]) by {
            assert(t[j] == s[j + 1]);
        }
        lemma_first_match_none(t, p);
    }
}

/// The node with identifier `id`.
pub open spec fn has_id(id: Uid) -> spec_fn(PlanNode) -> bool {
    |n: PlanNode| n.id == id
}

/// The declaration of node `id`.
pub open spec fn declares(id: Uid) -> spec_fn(EffectDeclaration) -> bool {
    |e: EffectDeclaration| e.node_id == id
}

/// The `(node, upstream)` record of node `id`.
pub open spec fn records_node(id: Uid) -> spec_fn((Uid, Uid)) -> bool {
    |r: (Uid, Uid)| r.0 == id
}

/// `r` ends the run as an internal failure with `message`, attributed to `node_id`.
pub open spec fn is_internal_failure(
    r: PathStep,
    message: Seq<char>,
    node_id: Option<Uid>,
    execution_id: Uid,
    trace_id: Seq<char>,
) -> bool {
    r matches PathStep::Finish(RunOutcome::Failed(f)) && f.code == RuntimeFailureCode::Internal && f.message@
        == message && f.node_id == node_id && f.effect_id is None && f.execution_id == execution_id
        && f.trace_id@ == trace_id
}

/// Where the input of node `id` comes from: the intent input at the entry; otherwise the
/// confirmed output of its recorded upstream node. The error is the failure message.
pub open spec fn step_input(
    id: Uid,
    entry_node: Uid,
    predecessors: Seq<(Uid, Uid)>,
    done: Seq<Uid>,
) -> Result<StepInput, Seq<char>> {
    if id == entry_node {
        Ok(StepInput::Intent)
    } else {
        match first_match(predecessors, records_node(id)) {
            None => Err("运行前已校验的节点依赖丢失"@),
            Some(k) => if done.contains(predecessors[k].1) {
                Ok(StepInput::Upstream(predecessors[k].1))
            } else {
                Err("上游节点没有可用的已确认输出"@)
            },
        }
    }
}

/// The step at `position` of the path: the intent's entry must still be declared; past the
/// last node the run completes; a cancellation ends it; otherwise the node at the position
/// runs (an effect with its declaration, or a mapper) with its input, and a missing node,
/// upstream output or declaration, or a control-flow node, fails the run.
pub open spec fn step_matches(
    plan: ExecutionPlan,
    path: ExecutionPath,
    intent: StandardIntent,
    position: int,
    done: Seq<Uid>,
    cancelled: bool,
    execution_id: Uid,
    trace_id: Seq<char>,
    r: PathStep,
) -> bool {
    match find_intent(plan.intent_entries@, intent) {
        None => is_internal_failure(r, "运行前已校验的标准意图丢失"@, None, execution_id, trace_id),
        Some(ei) => if position >= path.node_ids@.len() {
            r == PathStep::Finish(RunOutcome::Completed)
        } else if cancelled {
            r == PathStep::Finish(RunOutcome::Cancelled)
        } else {
            let id = path.node_ids@[position];
            match first_match(plan.nodes@, has_id(id)) {
                None => is_internal_failure(r, "运行前已校验的 Plan 节点丢失"@, Some(id), execution_id, trace_id),
                Some(ni) => {
                    let node = plan.nodes@[ni];
                    match step_input(id, plan.intent_entries@[ei].1.entry_node, path.predecessors@, done) {
                        Err(m) => is_internal_failure(r, m, Some(id), execution_id, trace_id),
                        Ok(input) => match node.kind {
                            PlanNodeKind::Http | PlanNodeKind::Js | PlanNodeKind::Extract => match first_match(
                                plan.effects@,
                                declares(node.id),
                            ) {
                                None => is_internal_failure(
                                    r,
                                    "运行前已校验的 effect 声明丢失"@,
                                    Some(node.id),
                                    execution_id,
                                    trace_id,
                                ),
                                Some(di) => r == PathStep::Effect { node: ni as usize, declaration: di as usize, input },
                            },
                            PlanNodeKind::Mapper => r == PathStep::Mapper { node: ni as usize, input },
                            _ => is_internal_failure(
                                r,
                                "运行前已校验的控制流节点不应进入执行"@,
                                Some(node.id),
                                execution_id,
                                trace_id,
                            ),
                        },
                    }
                },
            }
        },
    }
}

fn internal_failure(message: &str, node_id: Option<Uid>, execution_id: Uid, trace_id: &str) -> (r: PathStep)
    ensures
        is_internal_failure(r, message@, node_id, execution_id, trace_id@),
{
    PathStep::Finish(
        RunOutcome::Failed(
            ExecutionFailure {
                code: RuntimeFailureCode::Internal,
                execution_id,
                node_id,
                effect_id: None,
                trace_id: to_owned_string(trace_id),
                message: to_owned_string(message),
            },
        ),
    )
}

fn find_node(nodes: &Vec<PlanNode>, id: Uid) -> (r: Option<usize>)
    ensures
        match r {
            Some(i) => i < nodes@.len() && first_match(nodes@, has_id(id)) == Some(i as int),
            None => first_match(nodes@, has_id(id)) is None,
        },
{
    let mut i: usize = 0;
    while i < nodes.len()
        invariant
            i <= nodes@.len(),
            forall|j: int| 0 <= j < i ==> !has_id(id)(#[trigger] nodes@[j]),
        decreases nodes@.len() - i,
    {
        if nodes[i].id == id {
            proof {
                lemma_first_match_at(nodes@, has_id(id), i as int);
            }
            return Some(i);
        }
        i = i + 1;
    }
    proof {
        lemma_first_match_none(nodes@, has_id(id));
    }
    None
}

fn find_declaration(effects: &Vec<EffectDeclaration>, id: Uid) -> (r: Option<usize>)
    ensures
        match r {
            Some(i) => i < effects@.len() && first_match(effects@, declares(id)) == Some(i as int),
            None => first_match(effects@, declares(id)) is None,
        },
{
    let mut i: usize = 0;
    while i < effects.len()
        invariant
            i <= effects@.len(),
            forall|j: int| 0 <= j < i ==> !declares(id)(#[trigger] effects@[j]),
        decreases effects@.len() - i,
    {
        if effects[i].node_id == id {
            proof {
                lemma_first_match_at(effects@, declares(id), i as int);
            }
            return Some(i);
        }
        i = i + 1;
    }
    proof {
        lemma_first_match_none(effects@, declares(id));
    }
    None
}

fn find_upstream(predecessors: &Vec<(Uid, Uid)>, id: Uid) -> (r: Option<usize>)
    ensures
        match r {
            Some(i) => i < predecessors@.len() && first_match(predecessors@, records_node(id)) == Some(i as int),
            None => first_match(predecessors@, records_node(id)) is None,
        },
{
    let mut i: usize = 0;
    while i < predecessors.len()
        invariant
            i <= predecessors@.len(),
            forall|j: int| 0 <= j < i ==> !records_node(id)(#[trigger] predecessors@[j]),
        decreases predecessors@.len() - i,
    {
        if predecessors[i].0 == id {
            proof {
                lemma_first_match_at(predecessors@, records_node(id), i as int);
            }
            return Some(i);
        }
        i = i + 1;
    }
    proof {
        lemma_first_match_none(predecessors@, records_node(id));
    }
    None
}

fn contains_id(v: &Vec<Uid>, x: Uid) -> (b: bool)
    ensures
        b == v@.contains(x),
{
    crate::graph_reach::vec_contains(v, x)
}

fn input_for(
    id: Uid,
    entry_node: Uid,
    predecessors: &Vec<(Uid, Uid)>,
    done: &Vec<Uid>,
) -> (r: Result<StepInput, &'static str>)
    ensures
        match r {
            Ok(i) => step_input(id, entry_node, predecessors@, done@) == Ok::<StepInput, Seq<char>>(i),
            Err(m) => step_input(id, entry_node, predecessors@, done@) == Err::<StepInput, Seq<char>>(m@),
        },
{
    if id == entry_node {
        return Ok(StepInput::Intent);
    }
    match find_upstream(predecessors, id) {
        None => Err("运行前已校验的节点依赖丢失"),
        Some(k) => {
            let parent = predecessors[k].1;
            if contains_id(done, parent) {
                Ok(StepInput::Upstream(parent))
            } else {
                Err("上游节点没有可用的已确认输出")
            }
        },
    }
}

/// Decides the step at `position` of the path, given the nodes whose outputs are confirmed
/// (`done`) and whether cancellation was observed.
pub fn path_step(
    plan: &ExecutionPlan,
    path: &ExecutionPath,
    intent: StandardIntent,
    position: usize,
    done: &Vec<Uid>,
    cancelled: bool,
    execution_id: Uid,
    trace_id: &str,
) -> (r: PathStep)
    ensures
        step_matches(*plan, *path, intent, position as int, done@, cancelled, execution_id, trace_id@, r),
{
    let mut ei: usize = 0;
    while ei < plan.intent_entries.len() && plan.intent_entries[ei].0 != intent
        invariant
            ei <= plan.intent_entries@.len(),
            forall|j: int| 0 <= j < ei ==> plan.intent_entries@[j].0 != intent,
        decreases plan.intent_entries@.len() - ei,
    {
        ei = ei + 1;
    }
    if ei == plan.intent_entries.len() {
        proof {
            assert(!(exists|i: int| 0 <= i < plan.intent_entries@.len() && (#[trigger] plan.intent_entries@[i]).0 == intent));
        }
        return internal_failure("运行前已校验的标准意图丢失", None, execution_id, trace_id);
    }
    proof {
        assert(plan.intent_entries@[ei as int].0 == intent);
        let k = find_intent(plan.intent_entries@, intent)->0;
        if k != ei {
            if k < ei {
                assert(plan.intent_entries@[k].0 != intent);
            } else {
                assert(plan.intent_entries@[ei as int].0 == intent);
            }
        }
        assert(find_intent(plan.intent_entries@, intent) == Some(ei as int));
    }
    let entry_node = plan.intent_entries[ei].1.entry_node;
    if position >= path.node_ids.len() {
        return PathStep::Finish(RunOutcome::Completed);
    }
    if cancelled {
        return PathStep::Finish(RunOutcome::Cancelled);
    }
    let id = path.node_ids[position];
    let ni = match find_node(&plan.nodes, id) {
        None => {
            return internal_failure("运行前已校验的 Plan 节点丢失", Some(id), execution_id, trace_id);
        },
        Some(ni) => ni,
    };
    let input = match input_for(id, entry_node, &path.predecessors, done) {
        Err(m) => {
            return internal_failure(m, Some(id), execution_id, trace_id);
        },
        Ok(input) => input,
    };
    let node_id = plan.nodes[ni].id;
    match plan.nodes[ni].kind {
        PlanNodeKind::Http | PlanNodeKind::Js | PlanNodeKind::Extract => match find_declaration(&plan.effects, node_id) {
            None => internal_failure("运行前已校验的 effect 声明丢失", Some(node_id), execution_id, trace_id),
            Some(di) => PathStep::Effect { node: ni, declaration: di, input },
        },
        PlanNodeKind::Mapper => PathStep::Mapper { node: ni, input },
        PlanNodeKind::Merge | PlanNodeKind::Condition | PlanNodeKind::Loop => internal_failure(
            "运行前已校验的控制流节点不应进入执行",
            Some(node_id),
            execution_id,
            trace_id,
        ),
    }
}

/// What came of a step the caller performed.
#[derive(Debug)]
pub enum StepOutcome {
    /// The effect of the node with this identifier ran, and its output is confirmed.
    EffectConfirmed(Uid),
    /// The mapper ran and its delta was emitted.
    Mapped,
    /// The step ended the run (a failure, or a cancellation seen by the effect).
    Ended(RunOutcome),
}

/// Records what came of the step at `position`: a step that ended the run ends it with
/// that very outcome, and nothing later runs; a confirmed effect output makes its node
/// available upstream; a cancellation observed after a mapper ends the run as cancelled.
/// Otherwise the run moves on to the next position (`None`).
pub fn after_step(outcome: StepOutcome, cancelled: bool, done: &mut Vec<Uid>, position: &mut usize) -> (r: Option<
    RunOutcome,
>)
    requires
        *old(position) < usize::MAX,
    ensures
        match outcome {
            StepOutcome::Ended(o) => r == Some(o) && final(done)@ == old(done)@ && *final(position) == *old(
                position,
            ),
            StepOutcome::EffectConfirmed(id) => r is None && final(done)@ == old(done)@.push(id) && *final(position)
                == *old(position) + 1,
            StepOutcome::Mapped => if cancelled {
                r == Some(RunOutcome::Cancelled) && final(done)@ == old(done)@ && *final(position) == *old(position)
            } else {
                r is None && final(done)@ == old(done)@ && *final(position) == *old(position) + 1
            },
        },
{
    match outcome {
        StepOutcome::Ended(o) => Some(o),
        StepOutcome::EffectConfirmed(id) => {
            done.push(id);
            *position = *position + 1;
            None
        },
        StepOutcome::Mapped => {
            if cancelled {
                Some(RunOutcome::Cancelled)
            } else {
                *position = *position + 1;
                None
            }
        },
    }
}

} // verus!

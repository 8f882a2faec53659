use lanjing::json::JsonValue;
use lanjing::model::{
    EffectDeclaration, EffectKind, ExecutionPlan, IntentEntry, PlanNode, PlanNodeKind, StandardIntent,
};
use lanjing::path_run::{after_step, path_step, PathStep, StepInput, StepOutcome};
use lanjing::plan_path::ExecutionPath;
use lanjing::plan_runtime::RuntimeFailureCode;
use lanjing::scheduling::RunOutcome;

fn node(id: u128, kind: PlanNodeKind) -> PlanNode {
    PlanNode { id, kind, inputs: Vec::new(), outputs: Vec::new(), config: JsonValue::Null }
}

fn plan() -> ExecutionPlan {
    ExecutionPlan {
        schema_version: 1,
        compiler_version: "c".to_string(),
        definition_hash: "d".to_string(),
        plan_hash: "h".to_string(),
        nodes: vec![node(1, PlanNodeKind::Http), node(2, PlanNodeKind::Js), node(3, PlanNodeKind::Mapper)],
        edges: vec![(1, 2), (2, 3)],
        intent_entries: vec![(
            StandardIntent::Search,
            IntentEntry { intent: StandardIntent::Search, entry_node: 1, mapper_output: 3 },
        )],
        effects: vec![
            EffectDeclaration { node_id: 1, kind: EffectKind::Http, required_capabilities: Vec::new() },
            EffectDeclaration { node_id: 2, kind: EffectKind::QuickJs, required_capabilities: Vec::new() },
        ],
        capability_requirements: Vec::new(),
    }
}

fn path() -> ExecutionPath {
    ExecutionPath { node_ids: vec![1, 2, 3], predecessors: vec![(2, 1), (3, 2)] }
}

fn failure_message(step: PathStep) -> (RuntimeFailureCode, String, Option<u128>) {
    match step {
        PathStep::Finish(RunOutcome::Failed(f)) => (f.code, f.message, f.node_id),
        other => panic!("unexpected {other:?}"),
    }
}

#[test]
fn steps_follow_the_path_with_confirmed_outputs() {
    let p = plan();
    let path = path();
    assert_eq!(
        path_step(&p, &path, StandardIntent::Search, 0, &vec![], false, 9, "t"),
        PathStep::Effect { node: 0, declaration: 0, input: StepInput::Intent }
    );
    assert_eq!(
        path_step(&p, &path, StandardIntent::Search, 1, &vec![1], false, 9, "t"),
        PathStep::Effect { node: 1, declaration: 1, input: StepInput::Upstream(1) }
    );
    assert_eq!(
        path_step(&p, &path, StandardIntent::Search, 2, &vec![1, 2], false, 9, "t"),
        PathStep::Mapper { node: 2, input: StepInput::Upstream(2) }
    );
    assert_eq!(
        path_step(&p, &path, StandardIntent::Search, 3, &vec![1, 2], false, 9, "t"),
        PathStep::Finish(RunOutcome::Completed)
    );
    assert_eq!(
        path_step(&p, &path, StandardIntent::Search, 1, &vec![1], true, 9, "t"),
        PathStep::Finish(RunOutcome::Cancelled)
    );
}

#[test]
fn missing_pieces_fail_the_run() {
    let p = plan();
    let path = path();
    let (code, message, node) = failure_message(path_step(&p, &path, StandardIntent::Search, 1, &vec![], false, 9, "t"));
    assert_eq!(code, RuntimeFailureCode::Internal);
    assert_eq!(message, "上游节点没有可用的已确认输出");
    assert_eq!(node, Some(2));
    let (_, message, node) = failure_message(path_step(&p, &path, StandardIntent::ResolveItem, 0, &vec![], false, 9, "t"));
    assert_eq!(message, "运行前已校验的标准意图丢失");
    assert_eq!(node, None);
    let mut no_decl = plan();
    no_decl.effects.clear();
    let (_, message, node) = failure_message(path_step(&no_decl, &path, StandardIntent::Search, 0, &vec![], false, 9, "t"));
    assert_eq!(message, "运行前已校验的 effect 声明丢失");
    assert_eq!(node, Some(1));
    let bad_path = ExecutionPath { node_ids: vec![1, 7], predecessors: vec![(7, 1)] };
    let (_, message, _) = failure_message(path_step(&p, &bad_path, StandardIntent::Search, 1, &vec![1], false, 9, "t"));
    assert_eq!(message, "运行前已校验的 Plan 节点丢失");
    let mut merge = plan();
    merge.nodes[1].kind = PlanNodeKind::Merge;
    let (_, message, _) = failure_message(path_step(&merge, &path, StandardIntent::Search, 1, &vec![1], false, 9, "t"));
    assert_eq!(message, "运行前已校验的控制流节点不应进入执行");
}

#[test]
fn a_failed_step_ends_the_run_with_its_outcome() {
    let mut done: Vec<u128> = vec![1];
    let mut position = 2usize;
    let failure = RunOutcome::Failed(lanjing::scheduling::ExecutionFailure {
        code: RuntimeFailureCode::EffectFailed,
        execution_id: 9,
        node_id: Some(3),
        effect_id: Some(4),
        trace_id: "t".to_string(),
        message: "HTTP effect 执行失败".to_string(),
    });
    assert_eq!(after_step(StepOutcome::Ended(failure.clone()), false, &mut done, &mut position), Some(failure));
    assert_eq!((done.clone(), position), (vec![1], 2));
    assert_eq!(after_step(StepOutcome::EffectConfirmed(3), true, &mut done, &mut position), None);
    assert_eq!((done.clone(), position), (vec![1, 3], 3));
    assert_eq!(after_step(StepOutcome::Mapped, false, &mut done, &mut position), None);
    assert_eq!((done.clone(), position), (vec![1, 3], 4));
    assert_eq!(after_step(StepOutcome::Mapped, true, &mut done, &mut position), Some(RunOutcome::Cancelled));
    assert_eq!((done, position), (vec![1, 3], 4));
}

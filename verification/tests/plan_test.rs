use lanjing::graph_exec::{Edge, GraphExecutor, Node};
use lanjing::json::{JsonValue};
use lanjing::model::{
    EffectDeclaration, EffectKind, ExecutionPlan, FlowNodeKind, IntentEntry, PlanNode, PlanNodeKind, StandardIntent,
};
use lanjing::plan_path::{execution_path_between, PathDefect};
use lanjing::plan_runtime::{
    check_runtime_config, execution_path, expected_effect_kind, validate_plan, PlanRuntimeConfig, PlanRuntimeError,
    SUPPORTED_PLAN_SCHEMA_VERSION,
};

fn config() -> PlanRuntimeConfig {
    PlanRuntimeConfig {
        compiler_version: "lj-compiler/1".to_string(),
        plan_schema_version: SUPPORTED_PLAN_SCHEMA_VERSION,
        event_channel_capacity: 8,
        max_concurrent_executions: 2,
        max_concurrent_effects: 2,
        max_concurrent_effects_per_source: 1,
    }
}

fn node(id: u128, kind: PlanNodeKind) -> PlanNode {
    let config = match kind {
        PlanNodeKind::Js => JsonValue::Object(vec![("code".to_string(), JsonValue::String("return 1".to_string()))]),
        _ => JsonValue::Null,
    };
    PlanNode { id, kind, inputs: Vec::new(), outputs: Vec::new(), config }
}

fn plan() -> ExecutionPlan {
    ExecutionPlan {
        schema_version: 1,
        compiler_version: "lj-compiler/1".to_string(),
        definition_hash: "def".to_string(),
        plan_hash: "hash".to_string(),
        nodes: vec![node(1, PlanNodeKind::Http), node(2, PlanNodeKind::Js), node(3, PlanNodeKind::Mapper)],
        edges: vec![(1, 2), (2, 3)],
        intent_entries: vec![(
            StandardIntent::Search,
            IntentEntry { intent: StandardIntent::Search, entry_node: 1, mapper_output: 3 },
        )],
        effects: vec![
            EffectDeclaration { node_id: 1, kind: EffectKind::Http, required_capabilities: vec!["network".to_string()] },
            EffectDeclaration { node_id: 2, kind: EffectKind::QuickJs, required_capabilities: Vec::new() },
        ],
        capability_requirements: Vec::new(),
    }
}

#[test]
fn runtime_config_rejects_empty_identity_and_zero_capacities() {
    assert_eq!(check_runtime_config(&config()), Ok(()));
    let mut c = config();
    c.compiler_version = "  ".to_string();
    assert_eq!(check_runtime_config(&c), Err(PlanRuntimeError::InvalidConfiguration("compiler_version 不能为空")));
    let mut c = config();
    c.max_concurrent_effects_per_source = 0;
    assert_eq!(
        check_runtime_config(&c),
        Err(PlanRuntimeError::InvalidConfiguration("max_concurrent_effects_per_source 必须大于零"))
    );
}

#[test]
fn valid_plan_passes() {
    let p = plan();
    assert_eq!(validate_plan(&p, &config(), "hash", &vec![true, true, true]), Ok(()));
}

#[test]
fn plan_pins_are_checked_first() {
    let mut p = plan();
    p.schema_version = 2;
    assert_eq!(
        validate_plan(&p, &config(), "other", &vec![true, true, true]),
        Err(PlanRuntimeError::SchemaVersionMismatch { expected: 1, actual: 2 })
    );
    let p = plan();
    assert_eq!(validate_plan(&p, &config(), "other", &vec![true, true, true]), Err(PlanRuntimeError::PlanHashMismatch));
    let mut p = plan();
    p.compiler_version = "x".to_string();
    assert_eq!(validate_plan(&p, &config(), "hash", &vec![true, true, true]), Err(PlanRuntimeError::CompilerVersionMismatch));
    let mut p = plan();
    p.definition_hash = " ".to_string();
    assert_eq!(
        validate_plan(&p, &config(), "hash", &vec![true, true, true]),
        Err(PlanRuntimeError::InvalidPlan("definition_hash 不能为空"))
    );
}

#[test]
fn plan_structure_defects() {
    let mut p = plan();
    p.nodes.push(node(1, PlanNodeKind::Mapper));
    assert_eq!(
        validate_plan(&p, &config(), "hash", &vec![true, true, true, true]),
        Err(PlanRuntimeError::InvalidPlan("Plan 节点 ID 重复"))
    );
    let mut p = plan();
    p.nodes.push(node(9, PlanNodeKind::Loop));
    assert_eq!(validate_plan(&p, &config(), "hash", &vec![true, true, true, true]), Err(PlanRuntimeError::UnsupportedControlFlow));
    let p = plan();
    assert_eq!(
        validate_plan(&p, &config(), "hash", &vec![false, true, true]),
        Err(PlanRuntimeError::InvalidPlan("HTTP 节点配置无效"))
    );
    let mut p = plan();
    p.nodes[1].config = JsonValue::Object(vec![("code".to_string(), JsonValue::String("  ".to_string()))]);
    assert_eq!(
        validate_plan(&p, &config(), "hash", &vec![true, true, true]),
        Err(PlanRuntimeError::InvalidPlan("JS 节点配置无效"))
    );
    let mut p = plan();
    p.edges.push((3, 4));
    assert_eq!(
        validate_plan(&p, &config(), "hash", &vec![true, true, true]),
        Err(PlanRuntimeError::InvalidPlan("Plan 边引用不存在的节点"))
    );
    let mut p = plan();
    p.intent_entries[0].1.mapper_output = 2;
    assert_eq!(
        validate_plan(&p, &config(), "hash", &vec![true, true, true]),
        Err(PlanRuntimeError::InvalidPlan("意图输出节点必须是 Mapper"))
    );
    let mut p = plan();
    p.intent_entries[0].1.entry_node = 7;
    assert_eq!(validate_plan(&p, &config(), "hash", &vec![true, true, true]), Err(PlanRuntimeError::MissingNode(7)));
    let mut p = plan();
    p.effects.pop();
    assert_eq!(
        validate_plan(&p, &config(), "hash", &vec![true, true, true]),
        Err(PlanRuntimeError::InvalidPlan("effect 节点缺少声明"))
    );
    let mut p = plan();
    p.effects[1].kind = EffectKind::Extract;
    assert_eq!(
        validate_plan(&p, &config(), "hash", &vec![true, true, true]),
        Err(PlanRuntimeError::InvalidPlan("effect 声明与节点类型不一致"))
    );
}

#[test]
fn effect_kinds_of_nodes() {
    assert_eq!(expected_effect_kind(&PlanNodeKind::Http), Some(EffectKind::Http));
    assert_eq!(expected_effect_kind(&PlanNodeKind::Js), Some(EffectKind::QuickJs));
    assert_eq!(expected_effect_kind(&PlanNodeKind::Extract), Some(EffectKind::Extract));
    assert_eq!(expected_effect_kind(&PlanNodeKind::Mapper), None);
}

#[test]
fn execution_path_follows_single_upstreams() {
    let p = plan();
    let path = execution_path(&p, StandardIntent::Search).unwrap();
    assert_eq!(path.node_ids, vec![1, 2, 3]);
    assert!(path.predecessors.contains(&(2, 1)));
    assert!(path.predecessors.contains(&(3, 2)));
    assert_eq!(path.predecessors.len(), 2);
    assert_eq!(execution_path(&p, StandardIntent::ResolveItem).err(), Some(PlanRuntimeError::MissingIntent));
}

#[test]
fn execution_path_defects() {
    assert_eq!(execution_path_between(&vec![(1, 2)], 2, 1).err(), Some(PathDefect::EntryCannotReachMapper));
    assert_eq!(
        execution_path_between(&vec![(1, 2), (1, 3), (2, 4), (3, 4)], 1, 4).err(),
        Some(PathDefect::MultipleUpstreams)
    );
    assert_eq!(execution_path_between(&vec![(1, 2), (2, 1), (2, 3)], 1, 3).err(), Some(PathDefect::EntryHasUpstream));
    let single = execution_path_between(&vec![], 5, 5).unwrap();
    assert_eq!(single.node_ids, vec![5]);
    assert!(single.predecessors.is_empty());
    let side = execution_path_between(&vec![(1, 2), (2, 3), (1, 9)], 1, 3).unwrap();
    assert_eq!(side.node_ids, vec![1, 2, 3]);
}

#[test]
fn topological_sort_orders_and_drops_cycles() {
    let a = Node { node_id: 1, kind: FlowNodeKind::Http };
    let b = Node { node_id: 2, kind: FlowNodeKind::Extract };
    let c = Node { node_id: 3, kind: FlowNodeKind::Mapper };
    let nodes = vec![&c, &b, &a];
    let edges = vec![Edge { from: 1, to: 2 }, Edge { from: 2, to: 3 }, Edge { from: 7, to: 1 }];
    let sorted = GraphExecutor::new().topological_sort(&nodes, &edges);
    let ids: Vec<u128> = sorted.iter().map(|n| n.node_id).collect();
    assert_eq!(ids, vec![1, 2, 3]);

    let cyclic = vec![Edge { from: 1, to: 2 }, Edge { from: 2, to: 1 }, Edge { from: 2, to: 3 }];
    let nodes = vec![&a, &b, &c];
    assert!(GraphExecutor::new().topological_sort(&nodes, &cyclic).is_empty());
}

#[test]
fn topological_sort_linear_chain() {
    let n1 = Node { node_id: 11, kind: FlowNodeKind::Http };
    let n2 = Node { node_id: 12, kind: FlowNodeKind::Extract };
    let edges = vec![Edge { from: n1.node_id, to: n2.node_id }];
    let nodes = [&n2, &n1];
    let sorted = GraphExecutor::new().topological_sort(&nodes, &edges);
    assert_eq!(sorted[0].node_id, n1.node_id);
    assert_eq!(sorted[1].node_id, n2.node_id);
}

#[test]
fn runtime_rejects_tampered_plan_hash_and_versions() {
    let typed = vec![true, true, true];
    let mut hash_mismatch = plan();
    hash_mismatch.plan_hash = "tampered".to_string();
    assert!(matches!(
        validate_plan(&hash_mismatch, &config(), "hash", &typed),
        Err(PlanRuntimeError::PlanHashMismatch)
    ));

    let mut compiler_mismatch = plan();
    compiler_mismatch.compiler_version = "other-compiler@1".to_string();
    compiler_mismatch.plan_hash = "rehashed".to_string();
    assert!(matches!(
        validate_plan(&compiler_mismatch, &config(), "rehashed", &typed),
        Err(PlanRuntimeError::CompilerVersionMismatch)
    ));

    let mut schema_mismatch = plan();
    schema_mismatch.schema_version = 2;
    schema_mismatch.plan_hash = "rehashed".to_string();
    assert!(matches!(
        validate_plan(&schema_mismatch, &config(), "rehashed", &typed),
        Err(PlanRuntimeError::SchemaVersionMismatch { .. })
    ));
}

#[test]
fn topological_sort_takes_ready_nodes_first_in_first_out() {
    let x = Node { node_id: 1, kind: FlowNodeKind::Http };
    let y = Node { node_id: 2, kind: FlowNodeKind::Http };
    let z = Node { node_id: 3, kind: FlowNodeKind::Mapper };
    let nodes = vec![&x, &y, &z];
    let edges = vec![Edge { from: 2, to: 1 }];
    let ids: Vec<u128> = GraphExecutor::new().topological_sort(&nodes, &edges).iter().map(|n| n.node_id).collect();
    assert_eq!(ids, vec![2, 3, 1]);
    // A node joins the queue after its feeder's last edge to it.
    let a = Node { node_id: 10, kind: FlowNodeKind::Http };
    let b = Node { node_id: 11, kind: FlowNodeKind::Http };
    let c = Node { node_id: 12, kind: FlowNodeKind::Http };
    let nodes = vec![&a, &b, &c];
    let edges = vec![Edge { from: 10, to: 11 }, Edge { from: 10, to: 12 }, Edge { from: 10, to: 11 }];
    let ids: Vec<u128> = GraphExecutor::new().topological_sort(&nodes, &edges).iter().map(|n| n.node_id).collect();
    assert_eq!(ids, vec![10, 12, 11]);
}

#[test]
fn topological_sort_keeps_the_last_node_of_an_identifier() {
    let first = Node { node_id: 1, kind: FlowNodeKind::Http };
    let second = Node { node_id: 1, kind: FlowNodeKind::Extract };
    let nodes = vec![&first, &second];
    let sorted = GraphExecutor::new().topological_sort(&nodes, &[]);
    assert_eq!(sorted.len(), 1);
    assert_eq!(sorted[0].kind, FlowNodeKind::Extract);
}

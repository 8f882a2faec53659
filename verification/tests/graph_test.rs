use lanjing::graph_exec::{Edge, GraphExecutor, Node};
use lanjing::graph_select::{Graph, IntentExport};
use lanjing::model::{FlowNodeKind, StandardIntent};

fn http_node(id: u128) -> Node {
    Node { node_id: id, kind: FlowNodeKind::Http }
}

fn extract_node(id: u128) -> Node {
    Node { node_id: id, kind: FlowNodeKind::Extract }
}

fn graph_with_export(nodes: Vec<Node>, edges: Vec<Edge>, intent: StandardIntent, entry: u128, mapper: u128) -> Graph {
    Graph {
        nodes,
        edges,
        source_id: 99,
        base_url: String::new(),
        intent_exports: vec![(intent, IntentExport { flow_entry: entry, mapper_output: mapper })],
    }
}

#[test]
fn select_subgraph_filters_by_standard_intent() {
    let http = http_node(1);
    let extract = extract_node(2);
    let other_http = http_node(3);
    let graph = graph_with_export(
        vec![http, extract, other_http],
        vec![Edge { from: http.node_id, to: extract.node_id }],
        StandardIntent::Search,
        http.node_id,
        extract.node_id,
    );
    let selected = GraphExecutor::new().select_subgraph(&graph, &StandardIntent::Search);
    assert_eq!(selected.len(), 2);
    assert!(selected.iter().any(|n| n.node_id == http.node_id));
    assert!(selected.iter().any(|n| n.node_id == extract.node_id));
}

#[test]
fn select_subgraph_returns_empty_when_no_entry() {
    let graph = Graph {
        nodes: vec![extract_node(5)],
        edges: Vec::new(),
        source_id: 7,
        base_url: String::new(),
        intent_exports: Vec::new(),
    };
    let selected = GraphExecutor::new().select_subgraph(&graph, &StandardIntent::Search);
    assert!(selected.is_empty());
}

#[test]
fn select_subgraph_stops_at_declared_mapper_branch() {
    let http = http_node(1);
    let item_mapper = extract_node(2);
    let unit_mapper = extract_node(3);
    let graph = graph_with_export(
        vec![http, item_mapper, unit_mapper],
        vec![
            Edge { from: http.node_id, to: item_mapper.node_id },
            Edge { from: http.node_id, to: unit_mapper.node_id },
        ],
        StandardIntent::ResolveItem,
        http.node_id,
        item_mapper.node_id,
    );
    let selected = GraphExecutor::new().select_subgraph(&graph, &StandardIntent::ResolveItem);
    assert_eq!(selected.len(), 2);
    assert!(selected.iter().any(|n| n.node_id == http.node_id));
    assert!(selected.iter().any(|n| n.node_id == item_mapper.node_id));
    assert!(!selected.iter().any(|n| n.node_id == unit_mapper.node_id));
}

#[test]
fn selection_follows_the_breadth_first_route_in_authored_order() {
    // 1 -> 2 -> 4 and 1 -> 3 -> 4: the route through the first-discovered parent (2) is kept.
    let nodes = vec![extract_node(4), http_node(3), http_node(2), http_node(1)];
    let edges = vec![
        Edge { from: 1, to: 2 },
        Edge { from: 1, to: 3 },
        Edge { from: 3, to: 4 },
        Edge { from: 2, to: 4 },
    ];
    let graph = graph_with_export(nodes, edges, StandardIntent::Search, 1, 4);
    let ids: Vec<u128> =
        GraphExecutor::new().select_subgraph(&graph, &StandardIntent::Search).iter().map(|n| n.node_id).collect();
    assert_eq!(ids, vec![4, 2, 1]);

    let unreachable = graph_with_export(vec![http_node(1), extract_node(4)], vec![Edge { from: 4, to: 1 }], StandardIntent::Search, 1, 4);
    assert!(GraphExecutor::new().select_subgraph(&unreachable, &StandardIntent::Search).is_empty());
    let missing_node = graph_with_export(vec![http_node(1)], vec![Edge { from: 1, to: 4 }], StandardIntent::Search, 1, 4);
    assert!(GraphExecutor::new().select_subgraph(&missing_node, &StandardIntent::Search).is_empty());
    let same = graph_with_export(vec![http_node(1), http_node(2)], Vec::new(), StandardIntent::Search, 1, 1);
    let ids: Vec<u128> =
        GraphExecutor::new().select_subgraph(&same, &StandardIntent::Search).iter().map(|n| n.node_id).collect();
    assert_eq!(ids, vec![1]);
}

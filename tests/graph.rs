use adrscope::graph::extract_id_from_ref;
use adrscope::{Adr, AdrId, Edge, EdgeType, Frontmatter, Graph, Node};

fn create_test_adr(id: &str, related: Vec<String>) -> Adr {
    let frontmatter = Frontmatter::new(&format!("Test {id}")).with_related(related);
    Adr::new(
        AdrId::new(id),
        format!("{id}.md"),
        format!("{id}.md"),
        frontmatter,
        String::new(),
        String::new(),
        String::new(),
    )
}

#[test]
fn test_node_from_adr() {
    let adr = create_test_adr("adr_0001", vec![]);
    let node = Node::from_adr(&adr);
    assert_eq!(node.id, "adr_0001");
    assert_eq!(node.status, "proposed");
    assert_eq!(node.title, Some("Test adr_0001".to_string()));
}

#[test]
fn test_node_placeholder() {
    let node = Node::placeholder("adr_0005");
    assert_eq!(node.id, "adr_0005");
    assert!(node.title.is_none());
}

#[test]
fn test_edge_creation() {
    let edge = Edge::related("adr_0001", "adr_0005");
    assert_eq!(edge.source, "adr_0001");
    assert_eq!(edge.target, "adr_0005");
    assert_eq!(edge.edge_type, EdgeType::Related);
}

#[test]
fn test_graph_from_adrs() {
    let adrs = vec![
        create_test_adr("adr_0001", vec!["adr_0002.md".to_string()]),
        create_test_adr("adr_0002", vec![]),
    ];
    let graph = Graph::from_adrs(&adrs);
    assert_eq!(graph.node_count(), 2);
    assert_eq!(graph.edge_count(), 1);
    assert_eq!(graph.edges[0].source, "adr_0001");
    assert_eq!(graph.edges[0].target, "adr_0002");
}

#[test]
fn test_graph_with_missing_reference() {
    let adrs = vec![create_test_adr("adr_0001", vec!["adr_missing.md".to_string()])];
    let graph = Graph::from_adrs(&adrs);
    assert_eq!(graph.node_count(), 2);
    assert!(graph.nodes.iter().any(|n| n.id == "adr_missing"));
}

#[test]
fn test_extract_id_from_ref() {
    assert_eq!(extract_id_from_ref("adr_0005.md"), "adr_0005");
    assert_eq!(extract_id_from_ref("adr_0005"), "adr_0005");
}

#[test]
fn test_edge_type_as_str() {
    assert_eq!(EdgeType::Related.as_str(), "related");
    assert_eq!(EdgeType::Supersedes.as_str(), "supersedes");
}

#[test]
fn test_edge_supersedes() {
    let edge = Edge::supersedes("adr_0002", "adr_0001");
    assert_eq!(edge.source, "adr_0002");
    assert_eq!(edge.target, "adr_0001");
    assert_eq!(edge.edge_type, EdgeType::Supersedes);
}

#[test]
fn test_graph_new() {
    let graph = Graph::new();
    assert!(graph.is_empty());
    assert_eq!(graph.node_count(), 0);
    assert_eq!(graph.edge_count(), 0);
}

#[test]
fn test_graph_default() {
    let graph = Graph::default();
    assert!(graph.is_empty());
    assert_eq!(graph.nodes.len(), 0);
    assert_eq!(graph.edges.len(), 0);
}

#[test]
fn test_graph_is_empty() {
    let empty_graph = Graph::new();
    assert!(empty_graph.is_empty());
    let non_empty_graph = Graph::from_adrs(&[create_test_adr("adr_0001", vec![])]);
    assert!(!non_empty_graph.is_empty());
}

#[test]
fn test_edge_new() {
    let edge = Edge::new("source", "target", EdgeType::Related);
    assert_eq!(edge.source, "source");
    assert_eq!(edge.target, "target");
    assert_eq!(edge.edge_type, EdgeType::Related);
}

#[test]
fn dangling_reference_gives_placeholder_and_edge() {
    let adrs = vec![create_test_adr("A", vec!["B.md".to_string()])];
    let graph = Graph::from_adrs(&adrs);
    assert_eq!(graph.node_count(), 2);
    assert_eq!(graph.nodes[0].id, "A");
    assert_eq!(graph.nodes[0].title, Some("Test A".to_string()));
    assert_eq!(graph.nodes[1].id, "B");
    assert_eq!(graph.nodes[1].status, "proposed");
    assert_eq!(graph.nodes[1].title, None);
    assert_eq!(graph.edge_count(), 1);
    assert_eq!(graph.edges[0].source, "A");
    assert_eq!(graph.edges[0].target, "B");
    assert_eq!(graph.edges[0].edge_type, EdgeType::Related);
}

#[test]
fn node_and_edge_counts_follow_references() {
    let adrs = vec![
        create_test_adr("a", vec!["x.md".to_string(), "y".to_string(), "x.md".to_string(), "b.md".to_string()]),
        create_test_adr("b", vec!["y.md".to_string(), "z.md".to_string(), "a".to_string()]),
    ];
    let graph = Graph::from_adrs(&adrs);
    // two records, three distinct outside targets (x, y, z)
    assert_eq!(graph.node_count(), 2 + 3);
    // every reference is an edge, duplicates included
    assert_eq!(graph.edge_count(), 7);
    let ids: Vec<&str> = graph.nodes.iter().map(|n| n.id.as_str()).collect();
    assert_eq!(ids, vec!["a", "b", "x", "y", "z"]);
    assert_eq!(graph.edges[2].target, "x");
}

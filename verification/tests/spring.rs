use kode::spring::types::{BeanGraph, BeanType, GraphEdge, GraphNode};

fn node(id: &str, bean_type: BeanType, name: &str) -> GraphNode {
    GraphNode { id: id.into(), bean_type, qualified_name: name.into() }
}

fn edge(from: &str, to: &str) -> GraphEdge {
    GraphEdge { from: from.into(), to: to.into() }
}

fn test_graph() -> BeanGraph {
    BeanGraph {
        nodes: vec![
            node("a", BeanType::Service, "A"),
            node("b", BeanType::Repository, "B"),
            node("c", BeanType::Service, "C"),
        ],
        edges: vec![edge("a", "b"), edge("a", "c"), edge("c", "b")],
    }
}

#[test]
fn find_dependents_and_dependencies() {
    let g = test_graph();
    assert_eq!(g.find_dependencies("a"), vec!["b", "c"]);
    assert_eq!(g.find_dependents("b"), vec!["a", "c"]);
}

#[test]
fn no_cycles() {
    let g = test_graph();
    assert!(g.detect_cycles().is_empty());
}

#[test]
fn detect_cycle() {
    let g = BeanGraph {
        nodes: vec![node("x", BeanType::Service, "X"), node("y", BeanType::Service, "Y")],
        edges: vec![edge("x", "y"), edge("y", "x")],
    };
    let cycles = g.detect_cycles();
    assert!(!cycles.is_empty());
}

#[test]
fn render_tree_output() {
    let g = test_graph();
    let tree = g.render_tree("a");
    assert!(tree.contains("a"));
    assert!(tree.contains("b"));
    assert!(tree.contains("c"));
}

#[test]
fn render_tree_exact() {
    let g = test_graph();
    assert_eq!(g.render_tree("a"), "a\n├── b\n└── c\n    └── b");
    assert_eq!(g.render_tree("b"), "b");
    assert_eq!(g.render_tree("c"), "c\n└── b");
}

#[test]
fn cycle_members_in_order() {
    let g = BeanGraph {
        nodes: vec![node("p", BeanType::Component, "P")],
        edges: vec![edge("p", "q"), edge("q", "r"), edge("r", "q")],
    };
    assert_eq!(g.detect_cycles(), vec![vec!["q".to_string(), "r".to_string()]]);
}

#[test]
fn self_loop_is_a_cycle() {
    let g = BeanGraph { nodes: vec![node("s", BeanType::Configuration, "S")], edges: vec![edge("s", "s")] };
    assert_eq!(g.detect_cycles(), vec![vec!["s".to_string()]]);
}

#[test]
fn unknown_bean_has_no_links() {
    let g = test_graph();
    assert!(g.find_dependencies("zzz").is_empty());
    assert!(g.find_dependents("a").is_empty());
}

#[test]
fn detect_cycle_reports_stack_from_first_node() {
    let g = BeanGraph {
        nodes: vec![node("x", BeanType::Service, "X"), node("y", BeanType::Service, "Y")],
        edges: vec![edge("x", "y"), edge("y", "x")],
    };
    assert_eq!(g.detect_cycles(), vec![vec!["x".to_string(), "y".to_string()]]);
    let g = BeanGraph {
        nodes: vec![node("a", BeanType::Service, "A")],
        edges: vec![edge("a", "b"), edge("b", "c"), edge("c", "b"), edge("b", "a")],
    };
    assert_eq!(
        g.detect_cycles(),
        vec![vec!["b".to_string(), "c".to_string()], vec!["a".to_string(), "b".to_string()]]
    );
}

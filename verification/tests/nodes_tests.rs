use just_mcp::parser::ast::nodes::{debug_tree, extract_text_safe, find_all_nodes, ASTNode, NodeIterator};
use just_mcp::parser::ast::parser::{ASTJustParser, ParseTree};
use just_mcp::parser::ast::NodeType;

fn create_test_tree() -> ParseTree {
    let mut parser = ASTJustParser::new().expect("Error loading just grammar");
    let source = r#"
# Test recipe
hello:
    echo "world"
"#;
    parser.parse_content(source).unwrap()
}

fn root_of(tree: &ParseTree) -> ASTNode {
    tree.root()
}

#[test]
fn test_ast_node_creation() {
    let tree = create_test_tree();
    let root = root_of(&tree);
    assert!(root.kind() == "justfile" || root.kind() == "source_file");
    assert!(!root.has_error());
}

#[test]
fn test_node_type_classification() {
    let tree = create_test_tree();
    let root = root_of(&tree);
    assert_eq!(root.node_type(), NodeType::Justfile);
}

#[test]
fn test_text_extraction() {
    let tree = create_test_tree();
    let root = root_of(&tree);
    let text = root.text().unwrap();
    assert!(text.contains("hello"));
    assert!(text.contains("echo"));
}

#[test]
fn test_child_traversal() {
    let tree = create_test_tree();
    let root = root_of(&tree);
    assert!(root.child_count() > 0);
    let children = root.children();
    assert!(!children.is_empty());
}

#[test]
fn test_position_information() {
    let tree = create_test_tree();
    let root = root_of(&tree);
    let (start_line, start_col) = root.start_position();
    let (end_line, end_col) = root.end_position();
    assert!(start_line <= 1);
    assert!(start_col <= 1);
    assert!(end_line >= start_line);
    if end_line == start_line {
        assert!(end_col > start_col);
    }
}

#[test]
fn test_find_children_by_type() {
    let tree = create_test_tree();
    let root = root_of(&tree);
    let _comments = find_all_nodes(&root, NodeType::Comment);
}

#[test]
fn test_debug_utilities() {
    let tree = create_test_tree();
    let root = root_of(&tree);
    let debug_output = debug_tree(&root, 0);
    assert!(debug_output.contains("justfile") || debug_output.contains("source_file"));
    let text = extract_text_safe(&root);
    assert!(!text.is_empty());
}

#[test]
fn test_node_iterator() {
    let tree = create_test_tree();
    let root = root_of(&tree);
    let descendants: Vec<_> = root.descendants().into_iter().take(10).collect();
    assert!(!descendants.is_empty());
}

#[test]
fn node_iterator_walks_in_preorder() {
    let tree = create_test_tree();
    let root = root_of(&tree);
    let mut it = NodeIterator::new(&root);
    let mut walked = Vec::new();
    while let Some(n) = it.next() {
        walked.push(n.kind().to_string());
    }
    let expected: Vec<String> = root.descendants().iter().map(|n| n.kind().to_string()).collect();
    assert_eq!(walked, expected);
}

#[test]
fn parents_and_ancestors() {
    let tree = create_test_tree();
    let root = root_of(&tree);
    assert!(root.parent().is_none());
    let recipe = root.find_children_by_kind("recipe");
    assert_eq!(recipe.len(), 1);
    let first_child = recipe[0].child(0).unwrap();
    assert_eq!(first_child.parent().unwrap().kind(), "recipe");
    assert_eq!(first_child.find_ancestor(NodeType::Recipe).unwrap().kind(), "recipe");
    let comments = find_all_nodes(&root, NodeType::Comment);
    assert_eq!(comments.len(), 1);
    assert_eq!(comments[0].text().unwrap(), "# Test recipe");
}

use aczor::path_keyed::asset::Asset;
use aczor::path_keyed::asset_graph::AssetGraph;
use aczor::path_keyed::graph::ModuleGraph;

fn asset(path: &str) -> Asset {
    Asset::loaded(path.as_bytes().to_vec(), path.as_bytes().to_vec())
}

#[test]
fn loaded_asset_has_no_dependencies_yet() {
    let a = Asset::loaded(b"/a.js".to_vec(), vec![9]);
    assert_eq!(a.path, b"/a.js".to_vec());
    assert_eq!(a.content, vec![9]);
    assert!(a.dependency_specifiers.is_empty());
}

#[test]
fn root_holds_the_entries() {
    let g = AssetGraph::new(b"/project".to_vec(), vec!["./main.js".to_string()]);
    assert_eq!(g.node_count(), 1);
    let root = g.node(0);
    assert_eq!(root.path, b"/project".to_vec());
    assert_eq!(root.content, b"__ROOT__".to_vec());
    assert_eq!(root.dependency_specifiers, vec!["./main.js".to_string()]);
    assert!(!g.contains(b"/project"));
}

#[test]
fn add_asset_indexes_the_path() {
    let mut g = AssetGraph::new(b"/project".to_vec(), vec![]);
    let ix = g.add_asset(0, asset("/project/a.js"));
    assert_eq!(ix, 1);
    assert!(g.contains(b"/project/a.js"));
    assert_eq!(g.node(1).path, b"/project/a.js".to_vec());
}

#[test]
fn children_are_built_depth_first() {
    let mut g = AssetGraph::new(b"/p".to_vec(), vec![]);
    let mut plan = g.build_plan();
    assert_eq!(plan.next(), Some(0));
    g.attach_children(&mut plan, 0, vec![asset("/p/a.js"), asset("/p/b.js")]);
    assert_eq!(g.node_count(), 3);
    assert_eq!(plan.next(), Some(1));
    g.attach_children(&mut plan, 1, vec![asset("/p/c.js")]);
    assert_eq!(plan.next(), Some(3));
    assert_eq!(plan.next(), Some(2));
    assert_eq!(plan.next(), None);
    assert!(g.contains(b"/p/c.js"));
}

#[test]
fn transform_keeps_the_asset() {
    let g = AssetGraph::new(b"/p".to_vec(), vec![]);
    let a = g.transform(asset("/p/a.js"));
    assert_eq!(a.path, b"/p/a.js".to_vec());
    assert_eq!(a.content, b"/p/a.js".to_vec());
}

#[test]
fn module_graph_build_keeps_it() {
    let mut m = ModuleGraph::new();
    m.build();
}

#[test]
fn known_paths_are_not_reattached() {
    let mut g = AssetGraph::new(b"/p".to_vec(), vec![]);
    let mut plan = g.build_plan();
    let _ = plan.next();
    g.attach_children(&mut plan, 0, vec![asset("/p/a.js")]);
    g.attach_children(&mut plan, 1, vec![asset("/p/b.js")]);
    assert!(g.contains(b"/p/a.js"));
    assert!(g.contains(b"/p/b.js"));
    assert!(!g.contains(b"/p"));
}

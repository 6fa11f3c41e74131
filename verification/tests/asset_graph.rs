use aczor::asset::Asset;
use aczor::asset_graph::AssetGraph;
use aczor::dependency::Dependency;
use aczor::plugin::Transforming;
use aczor::url_ops::UrlError;

fn dep(s: &str) -> Dependency {
    Dependency { is_async: false, specifier: s.to_string() }
}

fn child(id: &str, found: &[&str]) -> Option<Transforming> {
    let mut asset = Asset::new(id.to_string());
    asset.set_content(id.as_bytes().to_vec());
    Some(Transforming { asset, dependencies: found.iter().map(|s| dep(s)).collect() })
}

fn entries(list: &[&str]) -> Vec<String> {
    list.iter().map(|s| s.to_string()).collect()
}

#[test]
fn asset_new_and_set_content() {
    let mut a = Asset::new("file:///a.js".to_string());
    assert_eq!(a.id, "file:///a.js");
    assert!(a.content.is_empty());
    a.set_content(vec![1, 2, 3]);
    assert_eq!(a.id, "file:///a.js");
    assert_eq!(a.content, vec![1, 2, 3]);
}

#[test]
fn new_graph_holds_the_parsed_root() {
    let g = AssetGraph::new("FILE:///project/");
    assert_eq!(g.node_count(), 1);
    assert_eq!(g.node(0).id, "file:///project/");
    assert!(g.node(0).content.is_empty());
    assert!(g.contains("file:///project/"));
    assert_eq!(g.lookup("file:///project/"), Some(0));
    assert!(!g.contains("FILE:///project/"));
}

#[test]
fn try_new_reports_parse_errors() {
    assert!(matches!(AssetGraph::try_new("no scheme"), Err(UrlError::RelativeUrlWithoutBase)));
    assert!(matches!(AssetGraph::try_new("http://[::1"), Err(UrlError::InvalidIpv6Address)));
    let g = AssetGraph::try_new("file:///root/").ok().unwrap();
    assert_eq!(g.node(0).id, "file:///root/");
}

#[test]
fn build_plan_starts_at_the_root_with_the_entries() {
    let g = AssetGraph::new("file:///root/");
    let mut plan = g.build_plan(entries(&["./a.js", "./b.js"]));
    assert!(!plan.is_done());
    let frame = plan.next().unwrap();
    assert_eq!(frame.node(), 0);
    let deps = frame.dependencies();
    assert_eq!(deps.len(), 2);
    assert_eq!(deps[0].specifier, "./a.js");
    assert!(!deps[0].is_async);
    assert_eq!(deps[1].specifier, "./b.js");
    assert!(plan.next().is_none());
    assert!(plan.is_done());
}

#[test]
fn completed_frames_are_built_depth_first_in_order() {
    let mut g = AssetGraph::new("file:///root/");
    let mut plan = g.build_plan(entries(&["./a.js", "./skip.js", "./b.js"]));
    let frame = plan.next().unwrap();
    g.complete_frame(
        &mut plan,
        frame,
        vec![child("file:///a.js", &["./c.js"]), None, child("file:///b.js", &[])],
    );
    assert_eq!(g.node_count(), 3);
    assert_eq!(g.node(1).id, "file:///a.js");
    assert_eq!(g.node(1).content, b"file:///a.js".to_vec());
    assert_eq!(g.node(2).id, "file:///b.js");
    assert_eq!(g.lookup("file:///a.js"), Some(1));
    assert_eq!(g.lookup("file:///b.js"), Some(2));
    let first = plan.next().unwrap();
    assert_eq!(first.node(), 1);
    assert_eq!(first.dependencies().len(), 1);
    assert_eq!(first.dependencies()[0].specifier, "./c.js");
    g.complete_frame(&mut plan, first, vec![child("file:///c.js", &[])]);
    assert_eq!(g.lookup("file:///c.js"), Some(3));
    assert_eq!(plan.next().unwrap().node(), 3);
    assert_eq!(plan.next().unwrap().node(), 2);
    assert!(plan.next().is_none());
}

#[test]
fn unknown_ids_are_the_ones_to_load() {
    let mut g = AssetGraph::new("file:///root/");
    let mut plan = g.build_plan(entries(&["./a.js"]));
    let frame = plan.next().unwrap();
    g.complete_frame(&mut plan, frame, vec![child("file:///a.js", &[])]);
    let ids = entries(&["file:///a.js", "file:///b.js", "file:///root/"]);
    assert_eq!(g.unknown_ids(&ids), vec![false, true, false]);
}

#[test]
fn the_last_of_equal_identifiers_is_indexed() {
    let mut g = AssetGraph::new("file:///root/");
    let mut plan = g.build_plan(entries(&["./x.js", "./y.js"]));
    let frame = plan.next().unwrap();
    g.complete_frame(
        &mut plan,
        frame,
        vec![child("file:///same.js", &[]), child("file:///same.js", &[])],
    );
    assert_eq!(g.node_count(), 3);
    assert_eq!(g.lookup("file:///same.js"), Some(2));
    assert!(g.contains("file:///same.js"));
    assert_eq!(g.lookup("file:///other.js"), None);
}

#[test]
fn a_renamed_asset_takes_over_a_known_identifier() {
    let mut g = AssetGraph::new("file:///root/");
    let mut plan = g.build_plan(entries(&["./a.js"]));
    let frame = plan.next().unwrap();
    g.complete_frame(&mut plan, frame, vec![child("file:///root/", &[])]);
    assert_eq!(g.node_count(), 2);
    assert_eq!(g.lookup("file:///root/"), Some(1));
}

#[test]
fn known_identifiers_stay_known() {
    let mut g = AssetGraph::new("file:///root/");
    let mut plan = g.build_plan(entries(&["./a.js"]));
    let frame = plan.next().unwrap();
    g.complete_frame(&mut plan, frame, vec![child("file:///a.js", &["./b.js"])]);
    assert!(g.contains("file:///a.js"));
    let frame = plan.next().unwrap();
    g.complete_frame(&mut plan, frame, vec![child("file:///b.js", &[])]);
    assert!(g.contains("file:///a.js"));
    assert!(g.contains("file:///root/"));
    assert!(g.contains("file:///b.js"));
}

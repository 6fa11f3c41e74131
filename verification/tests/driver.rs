use aczor::asset::Asset;
use aczor::chain::{chain_next, chain_start, ChainStep};
use aczor::dependency::Dependency;
use aczor::driver::{apply_step, file_path, resolve_by_url, transform_round};
use aczor::url_ops::UrlError;

fn importer(id: &str) -> Asset {
    Asset::new(id.to_string())
}

fn dep(s: &str) -> Dependency {
    Dependency { is_async: false, specifier: s.to_string() }
}

/// Asks plugins whose `apply` answers `applies`, one after another, and
/// records whom it asked.
fn first_that_applies(applies: &[bool]) -> (Option<usize>, Vec<usize>) {
    let mut asked = Vec::new();
    let mut step = chain_start::<usize>(applies.len());
    loop {
        match step {
            ChainStep::Ask(i) => {
                asked.push(i);
                step = apply_step(applies.len(), i, applies[i]);
            }
            ChainStep::Found(i) => return (Some(i), asked),
            ChainStep::Exhausted => return (None, asked),
        }
    }
}

#[test]
fn tt() {
    let root = importer("file:///home/");
    let id = resolve_by_url(&root, &dep("file:./index.js")).ok().unwrap().asset_id;
    println!("{}", id);
}

#[test]
fn url_resolution_joins_to_the_importer() {
    let root = importer("file:///home/");
    assert_eq!(
        resolve_by_url(&root, &dep("file:./index.js")).ok().unwrap().asset_id,
        "file:///home/index.js"
    );
    assert_eq!(
        resolve_by_url(&importer("file:///src/app/main.js"), &dep("../lib/util.js"))
            .ok()
            .unwrap()
            .asset_id,
        "file:///src/lib/util.js"
    );
}

#[test]
fn url_resolution_reports_errors() {
    assert!(matches!(
        resolve_by_url(&importer("file:///home/"), &dep("http://[::1")),
        Err(UrlError::InvalidIpv6Address)
    ));
}

#[test]
fn plugins_are_asked_until_one_applies() {
    assert_eq!(first_that_applies(&[false, true, true]), (Some(1), vec![0, 1]));
    assert_eq!(first_that_applies(&[true]), (Some(0), vec![0]));
    assert_eq!(first_that_applies(&[false, false]), (None, vec![0, 1]));
    assert_eq!(first_that_applies(&[]), (None, vec![]));
}

#[test]
fn apply_step_stops_at_an_applying_plugin() {
    assert!(matches!(apply_step(3, 1, true), ChainStep::Found(1)));
    assert!(matches!(apply_step(3, 1, false), ChainStep::Ask(2)));
    assert!(matches!(apply_step(3, 2, false), ChainStep::Exhausted));
}

#[test]
fn file_path_of_a_file_url() {
    assert_eq!(file_path("file:///tmp/a.js"), Some(b"/tmp/a.js".to_vec()));
    assert_eq!(file_path("file:///tmp/%FF.js"), Some(b"/tmp/\xFF.js".to_vec()));
    assert_eq!(file_path("http://example.com/a.js"), None);
}
#[test]
fn transform_rounds_skip_the_previous_round() {
    assert_eq!(transform_round(&vec![], &vec![true, false, true]), vec![0, 2]);
    assert_eq!(transform_round(&vec![0, 2], &vec![true, false, true]), Vec::<usize>::new());
    assert_eq!(transform_round(&vec![2], &vec![true, true, true]), vec![0, 1]);
    assert_eq!(transform_round(&vec![], &vec![]), Vec::<usize>::new());
}

#[test]
fn chains_return_the_first_answer() {
    assert!(matches!(chain_start::<u8>(2), ChainStep::Ask(0)));
    assert!(matches!(chain_start::<u8>(0), ChainStep::Exhausted));
    assert!(matches!(chain_next::<u8>(2, 0, None), ChainStep::Ask(1)));
    assert!(matches!(chain_next::<u8>(2, 1, None), ChainStep::Exhausted));
    assert!(matches!(chain_next(2, 0, Some(7u8)), ChainStep::Found(7)));
}

use hc_admin::dispatch::{
    all_indices, call, clean, distinct_indices, generate, run, select_or_all, select_or_sole, targets,
};
use hc_admin::error::HcError;
use hc_admin::registry::Registry;

fn p(text: &str) -> Vec<u8> {
    text.as_bytes().to_vec()
}

fn registry_of(paths: &[&str]) -> Registry {
    let mut registry = Registry::new();
    for path in paths {
        registry.append(p(path));
    }
    registry
}

#[test]
fn all_indices_counts_up() {
    assert_eq!(all_indices(3), vec![0, 1, 2]);
    assert_eq!(all_indices(0), Vec::<usize>::new());
}

#[test]
fn empty_selection_means_all() {
    assert_eq!(select_or_all(3, &[]), Ok(vec![0, 1, 2]));
}

#[test]
fn explicit_selection_is_kept() {
    assert_eq!(select_or_all(3, &[0, 2]), Ok(vec![0, 2]));
    assert_eq!(select_or_all(3, &[2, 0]), Ok(vec![2, 0]));
}

#[test]
fn selection_out_of_bounds_is_invalid_index() {
    assert_eq!(select_or_all(3, &[0, 3]), Err(HcError::InvalidIndex { index: 3 }));
    assert_eq!(select_or_sole(3, &[4]), Err(HcError::InvalidIndex { index: 4 }));
}

#[test]
fn sole_selection_defaults_to_only_entry() {
    assert_eq!(select_or_sole(1, &[]), Ok(vec![0]));
}

#[test]
fn sole_selection_is_ambiguous_with_several_entries() {
    assert_eq!(select_or_sole(2, &[]), Err(HcError::AmbiguousSelection { count: 2 }));
    assert_eq!(select_or_sole(5, &[]), Err(HcError::AmbiguousSelection { count: 5 }));
}

#[test]
fn sole_selection_without_entries_is_invalid_index() {
    assert_eq!(select_or_sole(0, &[]), Err(HcError::InvalidIndex { index: 0 }));
}

#[test]
fn sole_selection_takes_explicit_indices() {
    assert_eq!(select_or_sole(3, &[1, 2]), Ok(vec![1, 2]));
}

#[test]
fn targets_pair_index_and_path() {
    let registry = registry_of(&["/a", "/b", "/c"]);
    assert_eq!(targets(&registry, &[2, 0]), Ok(vec![(2, p("/c")), (0, p("/a"))]));
    assert_eq!(targets(&registry, &[2, 3, 4]), Err(HcError::InvalidIndex { index: 3 }));
    assert_eq!(targets(&registry, &[]), Ok(Vec::new()));
}

#[test]
fn run_defaults_to_every_setup() {
    let registry = registry_of(&["/a", "/b"]);
    assert_eq!(run(&registry, &[]), Ok(vec![(0, p("/a")), (1, p("/b"))]));
    assert_eq!(run(&registry, &[1]), Ok(vec![(1, p("/b"))]));
    assert_eq!(run(&registry, &[2]), Err(HcError::InvalidIndex { index: 2 }));
}

#[test]
fn call_needs_a_single_target() {
    let one = registry_of(&["/a"]);
    assert_eq!(call(&one, &[]), Ok(vec![(0, p("/a"))]));
    let two = registry_of(&["/a", "/b"]);
    assert_eq!(call(&two, &[]), Err(HcError::AmbiguousSelection { count: 2 }));
    assert_eq!(call(&two, &[1]), Ok(vec![(1, p("/b"))]));
    assert_eq!(call(&Registry::new(), &[]), Err(HcError::InvalidIndex { index: 0 }));
}

#[test]
fn generate_registers_new_setups() {
    let mut registry = registry_of(&["/a"]);
    let indices = generate(&mut registry, vec![p("/b"), p("/c")]);
    assert_eq!(indices, vec![1, 2]);
    assert_eq!(registry, registry_of(&["/a", "/b", "/c"]));
}

#[test]
fn clean_selected_setups() {
    let mut registry = registry_of(&["/a", "/b", "/c"]);
    assert_eq!(clean(&mut registry, &[2, 0]), Ok(vec![p("/a"), p("/c")]));
    assert_eq!(registry, registry_of(&["/b"]));
}

#[test]
fn clean_without_selection_removes_everything() {
    let mut registry = registry_of(&["/a", "/b", "/c"]);
    assert_eq!(clean(&mut registry, &[]), Ok(vec![p("/a"), p("/b"), p("/c")]));
    assert!(registry.is_empty());
}

#[test]
fn clean_with_invalid_index_changes_nothing() {
    let mut registry = registry_of(&["/a", "/b"]);
    assert_eq!(clean(&mut registry, &[1, 2]), Err(HcError::InvalidIndex { index: 2 }));
    assert_eq!(registry, registry_of(&["/a", "/b"]));
}

#[test]
fn generate_run_call_clean_scenario() {
    let mut registry = Registry::open(&hc_admin::registry::ManifestSource::Missing).unwrap();
    assert_eq!(generate(&mut registry, vec![p("/tmp/setup")]), vec![0]);
    assert_eq!(registry.len(), 1);
    let launched = run(&registry, &[]).unwrap();
    assert_eq!(launched, vec![(0, p("/tmp/setup"))]);
    assert_eq!(call(&registry, &[]), Ok(vec![(0, p("/tmp/setup"))]));
    let mut runner = hc_admin::runner::CmdRunner::try_new(4001, true).unwrap();
    let ticket = runner.command().unwrap();
    assert_eq!(runner.respond(ticket, true), Ok(()));
    assert_eq!(clean(&mut registry, &[]), Ok(vec![p("/tmp/setup")]));
    assert!(registry.is_empty());
    assert!(registry.to_manifest().is_empty());
}

#[test]
fn distinct_indices_keep_first_occurrences() {
    assert_eq!(distinct_indices(&[2, 0, 2, 0, 1]), vec![2, 0, 1]);
    assert_eq!(distinct_indices(&[0, 0]), vec![0]);
    assert_eq!(distinct_indices(&[3, 1]), vec![3, 1]);
    assert_eq!(distinct_indices(&[]), Vec::<usize>::new());
}

#[test]
fn selection_names_each_index_once() {
    assert_eq!(select_or_all(3, &[0, 0]), Ok(vec![0]));
    assert_eq!(select_or_all(3, &[2, 0, 2, 0]), Ok(vec![2, 0]));
    assert_eq!(select_or_sole(3, &[1, 1, 1]), Ok(vec![1]));
    assert_eq!(select_or_all(3, &[0, 0, 3]), Err(HcError::InvalidIndex { index: 3 }));
}

#[test]
fn run_and_call_launch_a_setup_once() {
    let registry = registry_of(&["/a", "/b"]);
    assert_eq!(run(&registry, &[0, 0]), Ok(vec![(0, p("/a"))]));
    assert_eq!(run(&registry, &[1, 0, 1]), Ok(vec![(1, p("/b")), (0, p("/a"))]));
    assert_eq!(call(&registry, &[1, 1]), Ok(vec![(1, p("/b"))]));
}

#[test]
fn clean_with_repeated_index_removes_it_once() {
    let mut registry = registry_of(&["/a", "/b", "/c"]);
    assert_eq!(clean(&mut registry, &[1, 1]), Ok(vec![p("/b")]));
    assert_eq!(registry, registry_of(&["/a", "/c"]));
}

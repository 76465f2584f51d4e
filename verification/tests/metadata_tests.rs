use sqlx_tls::metadata::Metadata;
use sqlx_tls::metadata::Package;

fn pkg(name: &str, src: &str) -> Package {
    Package::new(name.to_string(), vec![src.to_string()])
}

fn chain_metadata() -> Metadata {
    // core(0) <- client(1) <- cli(2): the client depends on core, the cli
    // depends on the client.
    let packages = vec![
        pkg("core", "core/src/lib.rs"),
        pkg("client", "client/src/lib.rs"),
        pkg("cli", "cli/src/main.rs"),
    ];
    let edges = vec![(1usize, 0usize), (2usize, 1usize)];
    Metadata::from_graph(packages, vec![0, 1, 2], &edges, "target".to_string())
        .expect("graph indices are valid")
}

#[test]
fn package_accessors_round_trip() {
    let p = pkg("core", "core/src/lib.rs");
    assert_eq!(p.name(), "core");
    assert_eq!(p.src_paths(), &["core/src/lib.rs".to_string()]);
}

#[test]
fn package_lookup_succeeds_exactly_for_valid_ids() {
    let m = chain_metadata();
    assert_eq!(m.package(1).expect("id 1 is valid").name(), "client");
    assert!(m.package(3).is_none());
}

#[test]
fn entries_and_members_and_target_directory() {
    let m = chain_metadata();
    assert_eq!(m.entries().len(), 3);
    assert_eq!(m.entries()[2].name(), "cli");
    assert_eq!(m.workspace_members(), &[0usize, 1, 2]);
    assert_eq!(m.target_directory(), "target");
}

#[test]
fn all_dependents_of_is_transitive() {
    let m = chain_metadata();
    let mut deps = m.all_dependents_of(0);
    deps.sort();
    assert_eq!(deps, vec![1usize, 2]);
    assert_eq!(m.all_dependents_of(1), vec![2usize]);
    assert!(m.all_dependents_of(2).is_empty());
}

#[test]
fn duplicate_edges_yield_each_dependent_once() {
    let packages = vec![pkg("a", "a.rs"), pkg("b", "b.rs")];
    let edges = vec![(1usize, 0usize), (1usize, 0usize)];
    let m = Metadata::from_graph(packages, vec![0], &edges, "target".to_string())
        .expect("graph indices are valid");
    assert_eq!(m.all_dependents_of(0), vec![1usize]);
}

#[test]
fn dependency_cycles_terminate_and_report_each_package_once() {
    let packages = vec![pkg("a", "a.rs"), pkg("b", "b.rs")];
    let edges = vec![(1usize, 0usize), (0usize, 1usize)];
    let m = Metadata::from_graph(packages, vec![], &edges, "target".to_string())
        .expect("graph indices are valid");
    let mut deps = m.all_dependents_of(0);
    deps.sort();
    assert_eq!(deps, vec![0usize, 1]);
}

#[test]
fn out_of_range_ids_are_rejected() {
    let packages = vec![pkg("a", "a.rs")];
    assert!(Metadata::from_graph(packages, vec![1], &Vec::new(), "t".to_string()).is_none());
    let packages = vec![pkg("a", "a.rs")];
    let edges = vec![(0usize, 7usize)];
    assert!(Metadata::from_graph(packages, vec![], &edges, "t".to_string()).is_none());
}

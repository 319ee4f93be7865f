use pop_launcher::cosmic_toplevel::matches_workspace_filter;
use pop_launcher::protocol::WorkspaceFilter;

fn coords(values: &[&[u32]]) -> Vec<Vec<u32>> {
    values.iter().map(|coords| (*coords).to_vec()).collect()
}

#[test]
fn all_filter_matches_everything() {
    let active = coords(&[&[1]]);
    let entry = coords(&[&[2]]);
    assert!(matches_workspace_filter(&active, &entry, WorkspaceFilter::All));
}

#[test]
fn current_filter_matches_shared_coordinates() {
    let active = coords(&[&[1, 2]]);
    let entry = coords(&[&[1, 2], &[3]]);
    assert!(matches_workspace_filter(&active, &entry, WorkspaceFilter::Current));
}

#[test]
fn current_filter_rejects_other_workspaces() {
    let active = coords(&[&[1]]);
    let entry = coords(&[&[2]]);
    assert!(!matches_workspace_filter(&active, &entry, WorkspaceFilter::Current));
}

#[test]
fn current_filter_rejects_missing_metadata() {
    let active = coords(&[&[1]]);
    let entry = coords(&[]);
    assert!(!matches_workspace_filter(&active, &entry, WorkspaceFilter::Current));
    assert!(!matches_workspace_filter(&coords(&[]), &coords(&[&[1]]), WorkspaceFilter::Current));
}

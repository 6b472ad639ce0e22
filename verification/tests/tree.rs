use mmk::tree::TreeWalk;
use std::collections::HashMap;

fn walk(root: u32, tree: &[(u32, &[u32])]) -> (Vec<u32>, Vec<u32>) {
    let children: HashMap<u32, Vec<u32>> = tree.iter().map(|(w, c)| (*w, c.to_vec())).collect();
    let mut queried = Vec::new();
    let mut state = TreeWalk::start(root);
    while let Some(window) = state.pending() {
        assert!(!state.is_done());
        queried.push(window);
        assert!(queried.len() < 1000, "the walk does not end");
        state = state.supply(children.get(&window).cloned().unwrap_or_default());
    }
    assert!(state.is_done());
    assert_eq!(state.windows(), &state.windows().clone());
    (state.into_windows(), queried)
}

#[test]
fn walk_starts_with_the_root() {
    let state = TreeWalk::start(1);
    assert_eq!(state.pending(), Some(1));
    assert!(!state.is_done());
    assert!(state.windows().is_empty());
}

#[test]
fn root_without_children_lists_nothing() {
    let (found, queried) = walk(1, &[]);
    assert_eq!(found, Vec::<u32>::new());
    assert_eq!(queried, vec![1]);
}

#[test]
fn children_are_listed_in_order_and_the_root_is_not() {
    let (found, queried) = walk(1, &[(1, &[10, 20, 30])]);
    assert_eq!(found, vec![10, 20, 30]);
    assert_eq!(queried, vec![1, 10, 20, 30]);
}

#[test]
fn a_window_is_listed_after_its_descendants() {
    let (found, queried) =
        walk(1, &[(1, &[2, 3]), (2, &[4, 5]), (3, &[6]), (5, &[7]), (6, &[])]);
    assert_eq!(found, vec![4, 7, 5, 2, 6, 3]);
    assert_eq!(queried, vec![1, 2, 4, 5, 7, 3, 6]);
}

#[test]
fn a_deep_chain_is_listed_bottom_up() {
    let (found, _) = walk(0, &[(0, &[1]), (1, &[2]), (2, &[3]), (3, &[4])]);
    assert_eq!(found, vec![4, 3, 2, 1]);
}

#[test]
fn a_window_met_twice_is_listed_and_queried_once() {
    let (found, queried) = walk(1, &[(1, &[2, 3, 2]), (2, &[4]), (3, &[4, 2])]);
    assert_eq!(found, vec![4, 2, 3]);
    assert_eq!(queried, vec![1, 2, 4, 3]);
}

#[test]
fn supplying_a_finished_walk_changes_nothing() {
    let state = TreeWalk::start(1).supply(vec![]);
    assert!(state.is_done());
    let state = state.supply(vec![5, 6]);
    assert!(state.is_done());
    assert_eq!(state.pending(), None);
    assert!(state.into_windows().is_empty());
}

#[test]
fn the_walk_asks_for_one_window_at_a_time() {
    let state = TreeWalk::start(1).supply(vec![2, 3]);
    assert_eq!(state.pending(), Some(2));
    assert_eq!(state.windows(), &Vec::<u32>::new());
    let state = state.supply(vec![]);
    assert_eq!(state.pending(), Some(3));
    assert_eq!(state.windows(), &vec![2]);
    let state = state.supply(vec![2]);
    assert_eq!(state.pending(), None);
    assert_eq!(state.windows(), &vec![2, 3]);
}

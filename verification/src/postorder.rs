//! What the walk of the window tree computes.
//!
//! The walk of [`crate::tree`] is a machine driven step by step. This module
//! says what it arrives at when the answers it is given are those of one
//! fixed tree: the windows below the root, depth first, each after its
//! descendants.

use crate::ids::push_unique;
use crate::tree::{settled, started, supplied, FrameView, WalkView};
use vstd::prelude::*;

verus! {

/// The windows listed once `window` and all below it are walked, starting
/// from the list `found`. A window that is listed already is not entered.
/// `depth` bounds how far down the walk goes: at depth 0 nothing is entered.
pub open spec fn visit(
    tree: spec_fn(u32) -> Seq<u32>,
    window: u32,
    found: Seq<u32>,
    depth: nat,
) -> Seq<u32>
    decreases depth, 0nat, 0nat,
{
    if depth == 0 || found.contains(window) {
        found
    } else {
        visit_children(tree, tree(window), 0, found, (depth - 1) as nat)
    }
}

/// The windows listed once the children from position `i` on are walked,
/// each followed by its own entry.
pub open spec fn visit_children(
    tree: spec_fn(u32) -> Seq<u32>,
    children: Seq<u32>,
    i: nat,
    found: Seq<u32>,
    depth: nat,
) -> Seq<u32>
    decreases depth, 1nat, children.len() - i,
{
    if i >= children.len() {
        found
    } else {
        let child = children[i as int];
        visit_children(
            tree,
            children,
            i + 1,
            push_unique(visit(tree, child, found, depth), child),
            depth,
        )
    }
}

/// Whether the walk of `window` reaches every window below it within
/// `depth` levels.
pub open spec fn within_depth(
    tree: spec_fn(u32) -> Seq<u32>,
    window: u32,
    found: Seq<u32>,
    depth: nat,
) -> bool
    decreases depth, 0nat, 0nat,
{
    found.contains(window) || (depth > 0 && children_within_depth(
        tree,
        tree(window),
        0,
        found,
        (depth - 1) as nat,
    ))
}

/// Whether the walk of the children from position `i` on stays within
/// `depth` levels.
pub open spec fn children_within_depth(
    tree: spec_fn(u32) -> Seq<u32>,
    children: Seq<u32>,
    i: nat,
    found: Seq<u32>,
    depth: nat,
) -> bool
    decreases depth, 1nat, children.len() - i,
{
    i >= children.len() || {
        let child = children[i as int];
        &&& within_depth(tree, child, found, depth)
        &&& children_within_depth(
            tree,
            children,
            i + 1,
            push_unique(visit(tree, child, found, depth), child),
            depth,
        )
    }
}

/// The number of windows that are queried while `window` is walked.
pub open spec fn queries(
    tree: spec_fn(u32) -> Seq<u32>,
    window: u32,
    found: Seq<u32>,
    depth: nat,
) -> nat
    decreases depth, 0nat, 0nat,
{
    if depth == 0 || found.contains(window) {
        0
    } else {
        1 + children_queries(tree, tree(window), 0, found, (depth - 1) as nat)
    }
}

/// The number of windows that are queried while the children from position
/// `i` on are walked.
pub open spec fn children_queries(
    tree: spec_fn(u32) -> Seq<u32>,
    children: Seq<u32>,
    i: nat,
    found: Seq<u32>,
    depth: nat,
) -> nat
    decreases depth, 1nat, children.len() - i,
{
    if i >= children.len() {
        0
    } else {
        let child = children[i as int];
        queries(tree, child, found, depth) + children_queries(
            tree,
            children,
            i + 1,
            push_unique(visit(tree, child, found, depth), child),
            depth,
        )
    }
}

/// The walk after `steps` queries, each answered with the children that
/// `tree` gives the pending window. A walk that is over stays as it is.
pub open spec fn run(tree: spec_fn(u32) -> Seq<u32>, walk: WalkView, steps: nat) -> WalkView
    decreases steps,
{
    if steps == 0 {
        walk
    } else {
        match walk.pending {
            Some(window) => run(tree, supplied(walk, tree(window)), (steps - 1) as nat),
            None => walk,
        }
    }
}

/// Running `a` steps and then `b` more is running `a + b` steps.
pub proof fn lemma_run_add(tree: spec_fn(u32) -> Seq<u32>, walk: WalkView, a: nat, b: nat)
    ensures
        run(tree, walk, a + b) == run(tree, run(tree, walk, a), b),
    decreases a,
{
    if a > 0 {
        match walk.pending {
            Some(window) => {
                lemma_run_add(tree, supplied(walk, tree(window)), (a - 1) as nat, b);
            },
            None => {
                lemma_run_stays(tree, walk, b);
                lemma_run_stays(tree, walk, a + b);
            },
        }
    }
}

/// A walk that is over does not change when it is run.
pub proof fn lemma_run_stays(tree: spec_fn(u32) -> Seq<u32>, walk: WalkView, steps: nat)
    requires
        walk.pending is None,
    ensures
        run(tree, walk, steps) == walk,
{
}

/// The frame of `children` with the first `next` of them done.
pub open spec fn frame(children: Seq<u32>, next: nat) -> FrameView {
    FrameView { children, next }
}

/// A walk that stands before child `i` of a frame and is answered by
/// `tree` arrives, after as many queries as the children take, where the
/// frame is done, with the windows listed that the children's walk lists.
pub proof fn lemma_children_run(
    tree: spec_fn(u32) -> Seq<u32>,
    children: Seq<u32>,
    i: nat,
    found: Seq<u32>,
    below: Seq<FrameView>,
    depth: nat,
)
    requires
        i <= children.len(),
        children_within_depth(tree, children, i, found, depth),
    ensures
        run(
            tree,
            settled(found, below.push(frame(children, i))),
            children_queries(tree, children, i, found, depth),
        ) == settled(
            visit_children(tree, children, i, found, depth),
            below.push(frame(children, children.len())),
        ),
    decreases depth, 1nat, children.len() - i,
{
    if i < children.len() {
        let child = children[i as int];
        let here = below.push(frame(children, i));
        let after = below.push(frame(children, i + 1));
        assert(here.drop_last() =~= below);
        assert(here.last() == frame(children, i));
        assert(frame(children, i).advanced() == frame(children, i + 1));
        if found.contains(child) {
            assert(settled(found, here) == settled(found, after));
            assert(visit(tree, child, found, depth) == found);
            assert(queries(tree, child, found, depth) == 0);
            lemma_children_run(tree, children, i + 1, found, below, depth);
        } else {
            assert(within_depth(tree, child, found, depth));
            assert(depth > 0);
            let grandchildren = tree(child);
            let listed = visit(tree, child, found, depth);
            assert(children_within_depth(tree, grandchildren, 0, found, (depth - 1) as nat));
            assert(listed == visit_children(tree, grandchildren, 0, found, (depth - 1) as nat));
            assert(queries(tree, child, found, depth) == 1 + children_queries(
                tree,
                grandchildren,
                0,
                found,
                (depth - 1) as nat,
            ));
            let inner = children_queries(tree, grandchildren, 0, found, (depth - 1) as nat);
            let next_found = push_unique(listed, child);
            let rest = children_queries(tree, children, i + 1, next_found, depth);
            let standing = settled(found, here);
            assert(standing == WalkView { found, stack: here, pending: Some(child) });
            let entered = here.push(frame(grandchildren, 0));
            let left = here.push(frame(grandchildren, grandchildren.len()));
            assert(supplied(standing, grandchildren) == settled(found, entered));
            lemma_children_run(tree, grandchildren, 0, found, here, (depth - 1) as nat);
            assert(run(tree, settled(found, entered), inner) == settled(listed, left));
            assert(left.drop_last() =~= here);
            assert(left.last() == frame(grandchildren, grandchildren.len()));
            assert(settled(listed, left) == settled(next_found, after));
            lemma_children_run(tree, children, i + 1, next_found, below, depth);
            assert(run(tree, standing, 1 + inner) == settled(next_found, after)) by {
                assert(run(tree, standing, 1 + inner) == run(
                    tree,
                    supplied(standing, grandchildren),
                    inner,
                ));
            }
            lemma_run_add(tree, standing, 1 + inner, rest);
            assert(children_queries(tree, children, i, found, depth) == 1 + inner + rest);
        }
    } else {
        assert(children_queries(tree, children, i, found, depth) == 0);
        assert(visit_children(tree, children, i, found, depth) == found);
    }
}

/// The walk computes the post-order of the tree.
///
/// Started at `root` and answered at every query with the children that
/// `tree` gives the pending window, the walk is over after as many queries
/// as the tree below the root has windows to enter, and has then listed
/// exactly those windows, depth first, each after its descendants and each
/// once. The tree must be no deeper than `depth`.
pub proof fn lemma_walk_is_post_order(tree: spec_fn(u32) -> Seq<u32>, root: u32, depth: nat)
    requires
        within_depth(tree, root, Seq::empty(), depth),
    ensures
        run(tree, started(root), queries(tree, root, Seq::empty(), depth)) == (WalkView {
            found: visit(tree, root, Seq::empty(), depth),
            stack: Seq::empty(),
            pending: None,
        }),
{
    let nothing = Seq::<u32>::empty();
    let none = Seq::<FrameView>::empty();
    let children = tree(root);
    let inner = children_queries(tree, children, 0, nothing, (depth - 1) as nat);
    let listed = visit(tree, root, nothing, depth);
    assert(!nothing.contains(root));
    assert(started(root).stack =~= none);
    assert(supplied(started(root), children) == settled(nothing, none.push(frame(children, 0))));
    lemma_children_run(tree, children, 0, nothing, none, (depth - 1) as nat);
    let done = none.push(frame(children, children.len()));
    assert(done.drop_last() =~= none);
    assert(done.last() == frame(children, children.len()));
    assert(settled(listed, done) == WalkView { found: listed, stack: none, pending: None });
    assert(run(tree, started(root), 1 + inner) == run(
        tree,
        supplied(started(root), children),
        inner,
    ));
}

} // verus!

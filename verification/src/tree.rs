//! Walk of the window tree.
//!
//! The tree lives in the server, so the walk is a machine that the caller
//! drives: it names the window whose children it needs next, the caller
//! queries the server and supplies them, until no window is left. The walk
//! goes depth first and lists each window after its descendants. The root
//! itself is not listed, and no window is listed twice.

use crate::ids::{add_unique, holds, lemma_push_unique_no_duplicates, push_unique};
use vstd::prelude::*;

verus! {

/// The children of a window whose subtree is being walked, and how many of
/// them are done.
#[derive(Debug)]
pub struct Frame {
    children: Vec<u32>,
    next: usize,
}

/// The mathematical content of a [`Frame`].
pub struct FrameView {
    pub children: Seq<u32>,
    pub next: nat,
}

impl View for Frame {
    type V = FrameView;

    closed spec fn view(&self) -> FrameView {
        FrameView { children: self.children@, next: self.next as nat }
    }
}

impl FrameView {
    /// The number of children that are not done yet.
    pub open spec fn remaining(self) -> nat {
        (self.children.len() - self.next) as nat
    }

    /// The same frame with one more child done.
    pub open spec fn advanced(self) -> FrameView {
        FrameView { next: self.next + 1, ..self }
    }
}

/// The state of a walk.
#[derive(Debug)]
pub struct TreeWalk {
    found: Vec<u32>,
    stack: Vec<Frame>,
    pending: Option<u32>,
}

/// The mathematical content of a [`TreeWalk`].
pub struct WalkView {
    /// The windows listed so far.
    pub found: Seq<u32>,
    /// The windows on the path from the root to the window in work, each
    /// with its children.
    pub stack: Seq<FrameView>,
    /// The window whose children are needed next; `None` when the walk is
    /// over.
    pub pending: Option<u32>,
}

/// The views of the frames of a stack.
pub open spec fn frame_views(stack: Seq<Frame>) -> Seq<FrameView> {
    Seq::new(stack.len(), |i: int| stack[i]@)
}

impl View for TreeWalk {
    type V = WalkView;

    closed spec fn view(&self) -> WalkView {
        WalkView { found: self.found@, stack: frame_views(self.stack@), pending: self.pending }
    }
}

/// What the termination of [`settled`] is measured by, after the height of
/// the stack: the children left in the top frame.
pub open spec fn top_remaining(stack: Seq<FrameView>) -> nat {
    if stack.len() > 0 {
        stack.last().remaining()
    } else {
        0
    }
}

/// The walk, with nothing pending, carried on to the next window that has
/// to be queried, or to its end.
///
/// A child that is listed already is passed over. A frame whose children
/// are all done is dropped, and the child of the frame below that it
/// belongs to is listed.
pub open spec fn settled(found: Seq<u32>, stack: Seq<FrameView>) -> WalkView
    decreases stack.len(), top_remaining(stack),
{
    if stack.len() == 0 {
        WalkView { found, stack, pending: None }
    } else {
        let top = stack.last();
        let below = stack.drop_last();
        if top.next < top.children.len() {
            let child = top.children[top.next as int];
            if found.contains(child) {
                settled(found, below.push(top.advanced()))
            } else {
                WalkView { found, stack, pending: Some(child) }
            }
        } else if below.len() == 0 {
            WalkView { found, stack: below, pending: None }
        } else {
            let parent = below.last();
            let child = parent.children[parent.next as int];
            settled(push_unique(found, child), below.drop_last().push(parent.advanced()))
        }
    }
}

/// The walk at its start: nothing listed, the root to be queried.
pub open spec fn started(root: u32) -> WalkView {
    WalkView { found: Seq::empty(), stack: Seq::empty(), pending: Some(root) }
}

/// The walk after the children of the pending window have come in. A walk
/// that is over stays as it is.
pub open spec fn supplied(walk: WalkView, children: Seq<u32>) -> WalkView {
    if walk.pending is Some {
        settled(walk.found, walk.stack.push(FrameView { children, next: 0 }))
    } else {
        walk
    }
}

/// Whether every frame but the top one has a child in work, and no frame
/// counts more children than it has.
pub open spec fn frames_in_work(stack: Seq<FrameView>) -> bool {
    &&& forall|i: int| 0 <= i < stack.len() ==> (#[trigger] stack[i]).next <= stack[i].children.len()
    &&& forall|i: int| 0 <= i < stack.len() - 1 ==> (#[trigger] stack[i]).next < stack[i].children.len()
}

/// The invariant of a walk: the pending window is the child in work of the
/// top frame, a finished walk has no frame left, and no window is listed
/// twice.
pub open spec fn well_formed(walk: WalkView) -> bool {
    &&& frames_in_work(walk.stack)
    &&& walk.found.no_duplicates()
    &&& walk.pending is None ==> walk.stack.len() == 0
    &&& walk.pending is Some && walk.stack.len() > 0 ==> {
        let top = walk.stack.last();
        top.next < top.children.len() && top.children[top.next as int] == walk.pending->0
    }
}

/// Marking the child in work of the top frame as done keeps the frames in
/// order, as long as the frames below the top one are.
proof fn lemma_advanced_in_work(stack: Seq<FrameView>, next: Seq<FrameView>)
    requires
        stack.len() > 0,
        stack.last().next < stack.last().children.len(),
        forall|i: int| 0 <= i < stack.len() - 1 ==> (#[trigger] stack[i]).next < stack[i].children.len(),
        next == stack.drop_last().push(stack.last().advanced()),
    ensures
        frames_in_work(next),
{
    assert forall|i: int| 0 <= i < next.len() - 1 implies (#[trigger] next[i]).next
        < next[i].children.len() by {
        assert(next[i] == stack[i]);
    }
    assert forall|i: int| 0 <= i < next.len() implies (#[trigger] next[i]).next
        <= next[i].children.len() by {
        if i < next.len() - 1 {
            assert(next[i] == stack[i]);
        }
    }
}

/// Carrying a walk on keeps its invariant.
pub proof fn lemma_settled_well_formed(found: Seq<u32>, stack: Seq<FrameView>)
    requires
        frames_in_work(stack),
        found.no_duplicates(),
    ensures
        well_formed(settled(found, stack)),
    decreases stack.len(), top_remaining(stack),
{
    if stack.len() > 0 {
        let top = stack.last();
        let below = stack.drop_last();
        if top.next < top.children.len() {
            let child = top.children[top.next as int];
            if found.contains(child) {
                let next = below.push(top.advanced());
                lemma_advanced_in_work(stack, next);
                lemma_settled_well_formed(found, next);
            }
        } else if below.len() > 0 {
            let parent = below.last();
            let child = parent.children[parent.next as int];
            let next = below.drop_last().push(parent.advanced());
            assert(parent == stack[stack.len() - 2]);
            assert forall|i: int| 0 <= i < below.len() - 1 implies (#[trigger] below[i]).next
                < below[i].children.len() by {
                assert(below[i] == stack[i]);
            }
            lemma_advanced_in_work(below, next);
            lemma_push_unique_no_duplicates(found, child);
            lemma_settled_well_formed(push_unique(found, child), next);
        }
    }
}

impl TreeWalk {
    #[verifier::type_invariant]
    spec fn inv(&self) -> bool {
        well_formed(self@)
    }

    /// Starts a walk at the root window.
    pub fn start(root: u32) -> (walk: TreeWalk)
        ensures
            walk@ == started(root),
    {
        let walk = TreeWalk { found: Vec::new(), stack: Vec::new(), pending: Some(root) };
        assert(walk@.stack =~= Seq::empty());
        walk
    }

    /// The window whose children the walk needs next; `None` when the walk
    /// is over.
    pub fn pending(&self) -> (window: Option<u32>)
        ensures
            window == self@.pending,
    {
        self.pending
    }

    /// Whether the walk is over.
    pub fn is_done(&self) -> (done: bool)
        ensures
            done == (self@.pending is None),
    {
        self.pending.is_none()
    }

    /// Takes the children of the pending window, first child first, and
    /// carries the walk on to the next window to query.
    pub fn supply(self, children: Vec<u32>) -> (walk: TreeWalk)
        ensures
            walk@ == supplied(self@, children@),
            well_formed(walk@),
    {
        proof {
            use_type_invariant(&self);
        }
        if self.pending.is_none() {
            return self;
        }
        let ghost before = self@;
        let TreeWalk { found, stack, pending: _ } = self;
        let mut stack = stack;
        stack.push(Frame { children, next: 0 });
        assert(frame_views(stack@) =~= before.stack.push(FrameView { children: children@, next: 0 }));
        let (found, stack, pending) = settle(found, stack);
        proof {
            lemma_settled_well_formed(
                before.found,
                before.stack.push(FrameView { children: children@, next: 0 }),
            );
        }
        TreeWalk { found, stack, pending }
    }

    /// The windows listed so far: when the walk is over, every window below
    /// the root, each after its descendants.
    pub fn windows(&self) -> (windows: &Vec<u32>)
        ensures
            windows@ == self@.found,
            windows@.no_duplicates(),
    {
        proof {
            use_type_invariant(self);
        }
        &self.found
    }

    /// Ends the walk and hands out the windows listed.
    pub fn into_windows(self) -> (windows: Vec<u32>)
        ensures
            windows@ == self@.found,
            windows@.no_duplicates(),
    {
        proof {
            use_type_invariant(&self);
        }
        self.found
    }
}

/// Carries a walk on until a window has to be queried or nothing is left.
fn settle(found: Vec<u32>, stack: Vec<Frame>) -> (out: (Vec<u32>, Vec<Frame>, Option<u32>))
    requires
        frames_in_work(frame_views(stack@)),
    ensures
        (WalkView { found: out.0@, stack: frame_views(out.1@), pending: out.2 }) == settled(
            found@,
            frame_views(stack@),
        ),
{
    let ghost goal = settled(found@, frame_views(stack@));
    let mut listed = found;
    let mut frames = stack;
    loop
        invariant
            frames_in_work(frame_views(frames@)),
            settled(listed@, frame_views(frames@)) == goal,
            goal == settled(found@, frame_views(stack@)),
        decreases frames@.len(), top_remaining(frame_views(frames@)),
    {
        let ghost views = frame_views(frames@);
        if frames.len() == 0 {
            return (listed, frames, None);
        }
        let mut top = frames.pop().unwrap();
        assert(top@ == views.last());
        assert(frame_views(frames@) =~= views.drop_last());
        if top.next < top.children.len() {
            let child = top.children[top.next];
            if holds(&listed, child) {
                top.next = top.next + 1;
                frames.push(top);
                assert(frame_views(frames@) =~= views.drop_last().push(views.last().advanced()));
                proof {
                    lemma_advanced_in_work(views, frame_views(frames@));
                }
            } else {
                frames.push(top);
                assert(frame_views(frames@) =~= views);
                return (listed, frames, Some(child));
            }
        } else {
            if frames.len() == 0 {
                return (listed, frames, None);
            }
            let ghost below = frame_views(frames@);
            let mut parent = frames.pop().unwrap();
            assert(parent@ == below.last());
            assert(parent@ == views[views.len() - 2]);
            assert(frame_views(frames@) =~= below.drop_last());
            let count: usize = parent.children.len();
            assert(parent.next < count);
            let child = parent.children[parent.next];
            add_unique(&mut listed, child);
            parent.next = parent.next + 1;
            frames.push(parent);
            assert(frame_views(frames@) =~= below.drop_last().push(below.last().advanced()));
            proof {
                lemma_advanced_in_work(below, frame_views(frames@));
            }
        }
    }
}

} // verus!

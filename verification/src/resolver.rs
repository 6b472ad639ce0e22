//! Window resolver: which windows the selection criteria pick.
//!
//! The caller walks the window tree, reads the properties of each window
//! that the criteria ask about, and hands both over. A window is picked when
//! it satisfies every criterion that was given; an explicit window id is
//! picked without a look at the tree.

use crate::config::{text_of, Config};
use crate::ids::{add_unique, lemma_push_unique_no_duplicates, push_unique};
use crate::props::{
    class_instance, class_text, decode_text, is_owner_pid, owner_pid, text_of_bytes, DecodeError,
    PropertyValue, PropertyView,
};
use vstd::prelude::*;

verus! {

/// The part of the configuration that selects windows. A criterion that is
/// absent does not filter.
#[derive(Clone, Debug)]
pub struct SelectionCriteria {
    /// A window taken as it is, whether it exists or not.
    pub wid: Option<u32>,
    /// The `class.instance` text that the class property must spell.
    pub class: Option<String>,
    /// The process that must own the window.
    pub pid: Option<u32>,
    /// The name that the window must carry, in either name property.
    pub name: Option<String>,
}

/// The mathematical content of [`SelectionCriteria`].
pub struct CriteriaView {
    pub wid: Option<u32>,
    pub class: Option<Seq<char>>,
    pub pid: Option<u32>,
    pub name: Option<Seq<char>>,
}

impl View for SelectionCriteria {
    type V = CriteriaView;

    open spec fn view(&self) -> CriteriaView {
        CriteriaView {
            wid: self.wid,
            class: text_of(self.class),
            pid: self.pid,
            name: text_of(self.name),
        }
    }
}

/// What was read of one window of the tree.
#[derive(Clone, Debug)]
pub struct WindowProps {
    /// The window's id.
    pub id: u32,
    /// The class property, as fetched.
    pub class: PropertyValue,
    /// The owning process, 0 where the window names none.
    pub pid: u32,
    /// The bytes of the extended name property.
    pub net_name: Vec<u8>,
    /// The bytes of the legacy name property.
    pub name: Vec<u8>,
}

/// The mathematical content of [`WindowProps`].
pub struct WindowView {
    pub id: u32,
    pub class: PropertyView,
    pub pid: u32,
    pub net_name: Seq<u8>,
    pub name: Seq<u8>,
}

impl View for WindowProps {
    type V = WindowView;

    open spec fn view(&self) -> WindowView {
        WindowView {
            id: self.id,
            class: self.class@,
            pid: self.pid,
            net_name: self.net_name@,
            name: self.name@,
        }
    }
}

/// Why no set of target windows came out.
#[derive(Clone, Copy, Debug, PartialEq, Eq, Structural)]
pub enum ResolveError {
    /// A property of this window that a criterion reads is no text.
    Undecodable { window: u32 },
    /// No window satisfies the criteria.
    NoMatch,
}

/// The views of the windows of a list.
pub open spec fn window_views(windows: Seq<WindowProps>) -> Seq<WindowView> {
    Seq::new(windows.len(), |i: int| windows[i]@)
}

/// Whether a criterion on a property is given. Without one, no window of
/// the tree is picked.
pub open spec fn filters_tree(criteria: CriteriaView) -> bool {
    criteria.class is Some || criteria.pid is Some || criteria.name is Some
}

/// Whether the class property spells `target`. A property that is not
/// class-shaped does not.
pub open spec fn class_verdict(target: Seq<char>, prop: PropertyView) -> Result<
    bool,
    DecodeError,
> {
    match class_text(prop) {
        Ok(Some(text)) => Ok(text == target),
        Ok(None) => Ok(false),
        Err(e) => Err(e),
    }
}

/// Whether one of the two name properties spells `target`. Both must be
/// text.
pub open spec fn name_verdict(target: Seq<char>, net_name: Seq<u8>, name: Seq<u8>) -> Result<
    bool,
    DecodeError,
> {
    match (text_of_bytes(net_name), text_of_bytes(name)) {
        (Ok(a), Ok(b)) => Ok(a == target || b == target),
        _ => Err(DecodeError {  }),
    }
}

/// Whether a window satisfies every criterion that is given, and at least
/// one is. An error where a property that a given criterion reads is no
/// text, whatever the other criteria say.
pub open spec fn verdict(criteria: CriteriaView, window: WindowView) -> Result<bool, DecodeError> {
    let class = match criteria.class {
        Some(target) => class_verdict(target, window.class),
        None => Ok(true),
    };
    let pid = match criteria.pid {
        Some(target) => window.pid == target,
        None => true,
    };
    let name = match criteria.name {
        Some(target) => name_verdict(target, window.net_name, window.name),
        None => Ok(true),
    };
    match (class, name) {
        (Ok(c), Ok(n)) => Ok(filters_tree(criteria) && c && pid && n),
        _ => Err(DecodeError {  }),
    }
}

/// The windows picked among the first `n` of the tree, in the order in
/// which they were met: the explicit id first, each window once.
pub open spec fn picked(criteria: CriteriaView, windows: Seq<WindowView>, n: nat) -> Seq<u32>
    decreases n,
{
    if n == 0 {
        match criteria.wid {
            Some(w) => seq![w],
            None => Seq::empty(),
        }
    } else {
        let before = picked(criteria, windows, (n - 1) as nat);
        if verdict(criteria, windows[n - 1]) == Ok::<bool, DecodeError>(true) {
            push_unique(before, windows[n - 1].id)
        } else {
            before
        }
    }
}

/// Whether reading window `i` fails.
pub open spec fn undecodable_at(criteria: CriteriaView, windows: Seq<WindowView>, i: int) -> bool {
    0 <= i < windows.len() && verdict(criteria, windows[i]) is Err
}

/// The target windows: all that were picked, or only the first of them.
pub open spec fn targets(criteria: CriteriaView, all_windows: bool, windows: Seq<WindowView>) -> Seq<
    u32,
> {
    let all = picked(criteria, windows, windows.len());
    if all_windows {
        all
    } else {
        all.take(1)
    }
}

/// The windows that the tool works on: never empty, no window twice.
#[derive(Debug)]
pub struct TargetSet {
    windows: Vec<u32>,
}

impl View for TargetSet {
    type V = Seq<u32>;

    closed spec fn view(&self) -> Seq<u32> {
        self.windows@
    }
}

impl Clone for TargetSet {
    fn clone(&self) -> (copy: TargetSet)
        ensures
            copy@ == self@,
    {
        proof {
            use_type_invariant(self);
        }
        TargetSet { windows: self.windows.clone() }
    }
}

impl TargetSet {
    #[verifier::type_invariant]
    spec fn inv(&self) -> bool {
        self.windows@.len() > 0 && self.windows@.no_duplicates()
    }

    /// The number of target windows, at least one.
    pub fn len(&self) -> (n: usize)
        ensures
            n == self@.len(),
            n > 0,
    {
        proof {
            use_type_invariant(self);
        }
        self.windows.len()
    }

    /// The target window at position `i`, if there are that many.
    pub fn get(&self, i: usize) -> (window: Option<u32>)
        ensures
            window == (if i < self@.len() {
                Some(self@[i as int])
            } else {
                None
            }),
    {
        if i < self.windows.len() {
            Some(self.windows[i])
        } else {
            None
        }
    }

    /// The first target window.
    pub fn first(&self) -> (window: u32)
        ensures
            self@.len() > 0,
            window == self@[0],
    {
        proof {
            use_type_invariant(self);
        }
        self.windows[0]
    }

    /// The target windows in order.
    pub fn to_vec(&self) -> (windows: Vec<u32>)
        ensures
            windows@ == self@,
            windows@.len() > 0,
            windows@.no_duplicates(),
    {
        proof {
            use_type_invariant(self);
        }
        self.windows.clone()
    }
}

impl Config {
    /// The selection criteria of a configuration.
    pub fn criteria(&self) -> (criteria: SelectionCriteria)
        ensures
            criteria@ == (CriteriaView {
                wid: self@.wid,
                class: self@.class,
                pid: self@.pid,
                name: self@.name,
            }),
    {
        SelectionCriteria {
            wid: self.wid,
            class: self.class.clone(),
            pid: self.pid,
            name: self.name.clone(),
        }
    }
}

impl WindowProps {
    /// Puts together what was read of a window. The owning process is
    /// decoded here; the other properties are decoded when they are compared.
    pub fn read(
        id: u32,
        class: PropertyValue,
        pid: &PropertyValue,
        net_name: PropertyValue,
        name: PropertyValue,
    ) -> (window: WindowProps)
        ensures
            window@.id == id,
            window@.class == class@,
            is_owner_pid(window@.pid, pid@),
            window@.net_name == net_name@.value,
            window@.name == name@.value,
    {
        WindowProps {
            id,
            class,
            pid: owner_pid(pid),
            net_name: net_name.value,
            name: name.value,
        }
    }
}

/// Whether the class property of a window spells the wanted text.
pub fn class_matches(target: &String, prop: &PropertyValue) -> (matched: Result<bool, DecodeError>)
    ensures
        matched == class_verdict(target@, prop@),
{
    match class_instance(prop)? {
        Some(text) => Ok(text == *target),
        None => Ok(false),
    }
}

/// Whether one of the name properties of a window spells the wanted text.
pub fn name_matches(target: &String, net_name: &Vec<u8>, name: &Vec<u8>) -> (matched: Result<
    bool,
    DecodeError,
>)
    ensures
        matched == name_verdict(target@, net_name@, name@),
{
    let client_net_name = decode_text(net_name)?;
    let client_name = decode_text(name)?;
    Ok(client_net_name == *target || client_name == *target)
}

/// Whether a window satisfies the criteria.
pub fn fulfils(criteria: &SelectionCriteria, window: &WindowProps) -> (matched: Result<
    bool,
    DecodeError,
>)
    ensures
        matched == verdict(criteria@, window@),
{
    let class = match &criteria.class {
        Some(target) => class_matches(target, &window.class)?,
        None => true,
    };
    let pid = match criteria.pid {
        Some(target) => window.pid == target,
        None => true,
    };
    let name = match &criteria.name {
        Some(target) => name_matches(target, &window.net_name, &window.name)?,
        None => true,
    };
    let filters = criteria.class.is_some() || criteria.pid.is_some() || criteria.name.is_some();
    Ok(filters && class && pid && name)
}

/// Picking windows never repeats one.
pub proof fn lemma_picked_no_duplicates(criteria: CriteriaView, windows: Seq<WindowView>, n: nat)
    ensures
        picked(criteria, windows, n).no_duplicates(),
    decreases n,
{
    if n > 0 {
        lemma_picked_no_duplicates(criteria, windows, (n - 1) as nat);
        lemma_push_unique_no_duplicates(
            picked(criteria, windows, (n - 1) as nat),
            windows[n - 1].id,
        );
    }
}

/// Windows met later never displace those picked before: what is picked
/// among the first `m` windows is the beginning of what is picked among the
/// first `n`.
pub proof fn lemma_picked_is_stable(
    criteria: CriteriaView,
    windows: Seq<WindowView>,
    m: nat,
    n: nat,
)
    requires
        m <= n,
    ensures
        picked(criteria, windows, m).is_prefix_of(picked(criteria, windows, n)),
    decreases n - m,
{
    if m < n {
        lemma_picked_is_stable(criteria, windows, m, (n - 1) as nat);
        let before = picked(criteria, windows, (n - 1) as nat);
        let after = picked(criteria, windows, n);
        assert(before.is_prefix_of(after)) by {
            assert(before =~= after.subrange(0, before.len() as int));
        }
        let first = picked(criteria, windows, m);
        assert(first =~= after.subrange(0, first.len() as int));
    }
}

/// Resolution is deterministic: the same criteria over the same windows in
/// the same order give the same targets in the same order.
pub proof fn lemma_targets_deterministic(
    criteria: CriteriaView,
    other_criteria: CriteriaView,
    all_windows: bool,
    windows: Seq<WindowView>,
    other_windows: Seq<WindowView>,
)
    requires
        criteria == other_criteria,
        windows.len() == other_windows.len(),
        forall|i: int| 0 <= i < windows.len() ==> windows[i] == other_windows[i],
    ensures
        targets(criteria, all_windows, windows) == targets(
            other_criteria,
            all_windows,
            other_windows,
        ),
        picked(criteria, windows, windows.len()) == picked(
            other_criteria,
            other_windows,
            other_windows.len(),
        ),
{
    assert(windows =~= other_windows);
}

/// Resolves the target windows from the criteria and the windows of the
/// tree, given in the order of the walk.
///
/// The explicit id, if any, comes first and is not looked up. Then
/// each window of the tree that satisfies all given criteria follows, once.
/// Without `all_windows` only the first of them is kept. A window whose
/// property is no text fails the resolution, and so does an empty result.
pub fn resolve(criteria: &SelectionCriteria, all_windows: bool, windows: &Vec<WindowProps>) -> (result:
    Result<TargetSet, ResolveError>)
    ensures
        match result {
            Ok(set) => {
                &&& forall|i: int| !undecodable_at(criteria@, window_views(windows@), i)
                &&& set@ == targets(criteria@, all_windows, window_views(windows@))
                &&& set@.len() > 0
                &&& set@.no_duplicates()
            },
            Err(ResolveError::Undecodable { window }) => exists|i: int|
                {
                    &&& #[trigger] undecodable_at(criteria@, window_views(windows@), i)
                    &&& window_views(windows@)[i].id == window
                    &&& forall|j: int| 0 <= j < i ==> !undecodable_at(criteria@, window_views(windows@), j)
                },
            Err(ResolveError::NoMatch) => {
                &&& forall|i: int| !undecodable_at(criteria@, window_views(windows@), i)
                &&& picked(criteria@, window_views(windows@), windows@.len()).len() == 0
            },
        },
{
    let ghost views = window_views(windows@);
    let mut found: Vec<u32> = Vec::new();
    if let Some(wid) = criteria.wid {
        found.push(wid);
    }
    assert(found@ =~= picked(criteria@, views, 0));
    let mut i: usize = 0;
    while i < windows.len()
        invariant
            i <= windows.len(),
            views == window_views(windows@),
            found@ == picked(criteria@, views, i as nat),
            forall|j: int| 0 <= j < i ==> !undecodable_at(criteria@, views, j),
        decreases windows.len() - i,
    {
        let window = &windows[i];
        assert(views[i as int] == window@);
        match fulfils(criteria, window) {
            Err(_) => {
                assert(undecodable_at(criteria@, views, i as int));
                return Err(ResolveError::Undecodable { window: window.id });
            },
            Ok(true) => {
                add_unique(&mut found, window.id);
            },
            Ok(false) => {},
        }
        i += 1;
    }
    proof {
        lemma_picked_no_duplicates(criteria@, views, windows@.len());
    }
    if found.len() == 0 {
        return Err(ResolveError::NoMatch);
    }
    if !all_windows {
        found.truncate(1);
        assert(found@ =~= picked(criteria@, views, windows@.len()).take(1));
    }
    Ok(TargetSet { windows: found })
}

} // verus!

use vstd::prelude::*;
use vstd::string::*;
use crate::tree::Node;

verus! {

/// The scratchpad to toggle, told apart from the others by one attribute.
#[derive(Debug)]
pub enum Target {
    /// The Wayland `app_id` of the window.
    AppId(String),
    /// The X11 window class of the window (Xwayland).
    Class(String),
}

pub open spec fn target_matches(t: Target, n: Node) -> bool {
    match t {
        Target::AppId(v) => n.app_id is Some && n.app_id->0@ == v@,
        Target::Class(v) => n.window_class is Some && n.window_class->0@ == v@,
    }
}

/// The criteria text that selects the target in a manager command.
pub open spec fn selector_text(t: Target) -> Seq<char> {
    match t {
        Target::AppId(v) => "app_id="@ + v@,
        Target::Class(v) => "class="@ + v@,
    }
}

fn same_text(a: &Option<String>, v: &String) -> (r: bool)
    ensures
        r == (a is Some && a->0@ == v@),
{
    match a {
        Some(s) => *s == *v,
        None => false,
    }
}

impl Target {
    /// Whether `node` is the window this target names.
    pub fn matches(&self, node: &Node) -> (r: bool)
        ensures
            r == target_matches(*self, *node),
    {
        match self {
            Target::AppId(v) => same_text(&node.app_id, v),
            Target::Class(v) => same_text(&node.window_class, v),
        }
    }

    /// The criteria text for this target, `app_id=<v>` or `class=<v>`.
    pub fn selector(&self) -> (r: String)
        ensures
            r@ == selector_text(*self),
    {
        match self {
            Target::AppId(v) => {
                let mut s = String::from_str("app_id=");
                s.append(v.as_str());
                s
            },
            Target::Class(v) => {
                let mut s = String::from_str("class=");
                s.append(v.as_str());
                s
            },
        }
    }
}

/// A floating node that is a showing scratchpad other than the target.
pub open spec fn conflicts(showing: Seq<i64>, t: Target) -> spec_fn(Node) -> bool {
    |n: Node| showing.contains(n.id) && !target_matches(t, n)
}

/// Ids of the showing scratchpads on workspace `ws` that are not the target,
/// in the order of its floating children.
pub open spec fn conflict_ids(ws: Node, showing: Seq<i64>, t: Target) -> Seq<i64> {
    ws.floating_nodes@.filter(conflicts(showing, t)).map_values(|n: Node| n.id)
}

/// Whether the target is among the showing scratchpads on workspace `ws`.
pub open spec fn target_showing_on(ws: Node, showing: Seq<i64>, t: Target) -> bool {
    exists|k: int|
        0 <= k < ws.floating_nodes@.len() && showing.contains((#[trigger] ws.floating_nodes@[k]).id)
            && target_matches(t, ws.floating_nodes@[k])
}

/// What the focused workspace holds of the showing scratchpads.
#[derive(Debug)]
pub struct Classification {
    /// Showing scratchpads that are not the target, to be hidden first.
    pub non_target_ids: Vec<i64>,
    /// Whether the target itself is showing there.
    pub target_showing: bool,
}

fn contains_id(ids: &Vec<i64>, id: i64) -> (r: bool)
    ensures
        r == ids@.contains(id),
{
    let mut i: usize = 0;
    while i < ids.len()
        invariant
            0 <= i <= ids@.len(),
            forall|k: int| 0 <= k < i ==> ids@[k] != id,
        decreases ids@.len() - i,
    {
        if ids[i] == id {
            return true;
        }
        i = i + 1;
    }
    false
}

/// Sorts the showing scratchpads on the focused workspace into the target and
/// the others.
pub fn classify(focused: &Node, showing: &Vec<i64>, target: &Target) -> (r: Classification)
    ensures
        r.non_target_ids@ == conflict_ids(*focused, showing@, *target),
        r.target_showing == target_showing_on(*focused, showing@, *target),
{
    let ghost floating = focused.floating_nodes@;
    let ghost p = conflicts(showing@, *target);
    let mut ids: Vec<i64> = Vec::new();
    let mut target_showing = false;
    let mut i: usize = 0;
    proof {
        reveal(Seq::filter);
        assert(floating.subrange(0, 0) =~= Seq::<Node>::empty());
    }
    while i < focused.floating_nodes.len()
        invariant
            0 <= i <= floating.len(),
            floating == focused.floating_nodes@,
            p == conflicts(showing@, *target),
            ids@ == floating.subrange(0, i as int).filter(p).map_values(|n: Node| n.id),
            target_showing == exists|k: int|
                0 <= k < i && showing@.contains((#[trigger] floating[k]).id) && target_matches(
                    *target,
                    floating[k],
                ),
        decreases floating.len() - i,
    {
        let node = &focused.floating_nodes[i];
        let is_scratch = contains_id(showing, node.id);
        let is_target = target.matches(node);
        proof {
            reveal(Seq::filter);
            assert(floating.subrange(0, i + 1).drop_last() =~= floating.subrange(0, i as int));
            assert(floating.subrange(0, i + 1).last() == floating[i as int]);
        }
        if is_scratch && !is_target {
            ids.push(node.id);
        }
        if is_scratch && is_target {
            target_showing = true;
        }
        proof {
            assert(ids@ =~= floating.subrange(0, i + 1).filter(p).map_values(|n: Node| n.id));
        }
        i = i + 1;
    }
    proof {
        assert(floating.subrange(0, i as int) =~= floating);
    }
    Classification { non_target_ids: ids, target_showing }
}

} // verus!

use vstd::prelude::*;
use crate::tree::{first_match, Node, TreeError};

verus! {

/// Ids of the floating children of `ws`, in order.
pub open spec fn floating_ids(ws: Node) -> Seq<i64> {
    ws.floating_nodes@.map_values(|n: Node| n.id)
}

pub open spec fn not_floating_in(ws: Node) -> spec_fn(i64) -> bool {
    |id: i64| !floating_ids(ws).contains(id)
}

/// Ids of the scratchpads that are showing: the scratch workspace lists every
/// scratchpad in its focus order, and keeps only the hidden ones floating.
pub open spec fn showing_ids(ws: Node) -> Seq<i64> {
    ws.focus@.filter(not_floating_in(ws))
}

/// A workspace that is focused itself, or holds a focused child.
pub open spec fn workspace_has_focus(ws: Node) -> bool {
    ||| ws.focused
    ||| exists|k: int| 0 <= k < ws.nodes@.len() && (#[trigger] ws.nodes@[k]).focused
    ||| exists|k: int| 0 <= k < ws.floating_nodes@.len() && (#[trigger] ws.floating_nodes@[k]).focused
}

pub open spec fn holds_focus() -> spec_fn(Node) -> bool {
    |ws: Node| workspace_has_focus(ws)
}

/// The first workspace holding the focus on the first output that has one.
pub open spec fn focused_workspace_in(outputs: Seq<Node>) -> Option<Node>
    decreases outputs.len(),
{
    if outputs.len() == 0 {
        None
    } else {
        match first_match(outputs[0].nodes@, holds_focus()) {
            Some(ws) => Some(ws),
            None => focused_workspace_in(outputs.drop_first()),
        }
    }
}

pub open spec fn focused_workspace_of(tree: Node) -> Option<Node> {
    focused_workspace_in(tree.nodes@)
}

/// The showing set is exactly the ids in focus order less the ids of the
/// floating (hidden) scratchpads.
pub proof fn lemma_showing_is_difference(ws: Node)
    ensures
        showing_ids(ws).to_set() == ws.focus@.to_set().difference(floating_ids(ws).to_set()),
{
    let p = not_floating_in(ws);
    let s = ws.focus@;
    broadcast use vstd::seq_lib::group_filter_ensures;

    assert forall|id: i64|
        showing_ids(ws).to_set().contains(id) <==> ws.focus@.to_set().difference(
            floating_ids(ws).to_set(),
        ).contains(id) by {
        if showing_ids(ws).contains(id) {
            s.lemma_filter_contains_rev(p, id);
            let j = choose|j: int| 0 <= j < s.filter(p).len() && s.filter(p)[j] == id;
            assert(p(s.filter(p)[j]));
        }
        if s.contains(id) && !floating_ids(ws).contains(id) {
            let i = choose|i: int| 0 <= i < s.len() && s[i] == id;
            assert(p(s[i]));
        }
    }
    assert(showing_ids(ws).to_set() =~= ws.focus@.to_set().difference(floating_ids(ws).to_set()));
}

proof fn lemma_first_match_none(s: Seq<Node>, p: spec_fn(Node) -> bool)
    requires
        forall|k: int| 0 <= k < s.len() ==> !p(#[trigger] s[k]),
    ensures
        first_match(s, p) is None,
    decreases s.len(),
{
    if s.len() > 0 {
        assert(forall|k: int| 0 <= k < s.drop_first().len() ==> s.drop_first()[k] == s[k + 1]);
        lemma_first_match_none(s.drop_first(), p);
    }
}

proof fn lemma_no_focus_in(outputs: Seq<Node>)
    requires
        forall|i: int, j: int|
            0 <= i < outputs.len() && 0 <= j < outputs[i].nodes@.len() ==> !workspace_has_focus(
                #[trigger] outputs[i].nodes@[j],
            ),
    ensures
        focused_workspace_in(outputs) is None,
    decreases outputs.len(),
{
    if outputs.len() > 0 {
        let first = outputs[0];
        assert(forall|j: int| 0 <= j < first.nodes@.len() ==> !holds_focus()(#[trigger] first.nodes@[j]));
        lemma_first_match_none(first.nodes@, holds_focus());
        let rest = outputs.drop_first();
        assert forall|i: int, j: int|
            0 <= i < rest.len() && 0 <= j < rest[i].nodes@.len() implies !workspace_has_focus(
                #[trigger] rest[i].nodes@[j],
            ) by {
            assert(rest[i] == outputs[i + 1]);
        }
        lemma_no_focus_in(rest);
    }
}

/// In a tree where no workspace is focused and no workspace holds a focused
/// child, there is no focused workspace to be found.
pub proof fn lemma_no_focus_marker(tree: Node)
    requires
        forall|i: int, j: int|
            0 <= i < tree.nodes@.len() && 0 <= j < tree.nodes@[i].nodes@.len() ==> {
                let ws = #[trigger] tree.nodes@[i].nodes@[j];
                &&& !ws.focused
                &&& forall|k: int| 0 <= k < ws.nodes@.len() ==> !(#[trigger] ws.nodes@[k]).focused
                &&& forall|k: int|
                    0 <= k < ws.floating_nodes@.len() ==> !(#[trigger] ws.floating_nodes@[k]).focused
            },
    ensures
        focused_workspace_of(tree) is None,
{
    lemma_no_focus_in(tree.nodes@);
}

fn any_focused(nodes: &Vec<Node>) -> (r: bool)
    ensures
        r == exists|k: int| 0 <= k < nodes@.len() && (#[trigger] nodes@[k]).focused,
{
    let mut i: usize = 0;
    while i < nodes.len()
        invariant
            0 <= i <= nodes@.len(),
            forall|k: int| 0 <= k < i ==> !(#[trigger] nodes@[k]).focused,
        decreases nodes@.len() - i,
    {
        if nodes[i].focused {
            return true;
        }
        i = i + 1;
    }
    false
}

fn has_focus(ws: &Node) -> (r: bool)
    ensures
        r == workspace_has_focus(*ws),
{
    ws.focused || any_focused(&ws.nodes) || any_focused(&ws.floating_nodes)
}

/// Position of the first workspace in `workspaces` that holds the focus.
fn find_focused(workspaces: &Vec<Node>) -> (r: Option<usize>)
    ensures
        match r {
            Some(i) => i < workspaces@.len() && first_match(workspaces@, holds_focus()) == Some(
                workspaces@[i as int],
            ),
            None => first_match(workspaces@, holds_focus()) is None,
        },
{
    let ghost s = workspaces@;
    let mut i: usize = 0;
    proof {
        assert(s.subrange(0, s.len() as int) =~= s);
    }
    while i < workspaces.len()
        invariant
            0 <= i <= s.len(),
            s == workspaces@,
            first_match(s, holds_focus()) == first_match(s.subrange(i as int, s.len() as int), holds_focus()),
        decreases s.len() - i,
    {
        if has_focus(&workspaces[i]) {
            return Some(i);
        }
        proof {
            assert(s.subrange(i as int, s.len() as int).drop_first() =~= s.subrange(i + 1, s.len() as int));
        }
        i = i + 1;
    }
    None
}

/// Finds the workspace that holds the focus.
pub fn focused_workspace(tree: &Node) -> (r: Result<&Node, TreeError>)
    ensures
        match r {
            Ok(ws) => focused_workspace_of(*tree) == Some(*ws),
            Err(e) => focused_workspace_of(*tree) is None && e == TreeError::FocusedWorkspaceNotFound,
        },
{
    let ghost s = tree.nodes@;
    let mut i: usize = 0;
    proof {
        assert(s.subrange(0, s.len() as int) =~= s);
    }
    while i < tree.nodes.len()
        invariant
            0 <= i <= s.len(),
            s == tree.nodes@,
            focused_workspace_in(s) == focused_workspace_in(s.subrange(i as int, s.len() as int)),
        decreases s.len() - i,
    {
        let output = &tree.nodes[i];
        proof {
            assert(s.subrange(i as int, s.len() as int).drop_first() =~= s.subrange(i + 1, s.len() as int));
        }
        match find_focused(&output.nodes) {
            Some(j) => {
                return Ok(&output.nodes[j]);
            },
            None => {},
        }
        i = i + 1;
    }
    Err(TreeError::FocusedWorkspaceNotFound)
}

fn is_floating_in(ws: &Node, id: i64) -> (r: bool)
    ensures
        r == floating_ids(*ws).contains(id),
{
    let mut i: usize = 0;
    while i < ws.floating_nodes.len()
        invariant
            0 <= i <= ws.floating_nodes@.len(),
            forall|k: int| 0 <= k < i ==> (#[trigger] ws.floating_nodes@[k]).id != id,
        decreases ws.floating_nodes@.len() - i,
    {
        if ws.floating_nodes[i].id == id {
            proof {
                assert(floating_ids(*ws)[i as int] == id);
            }
            return true;
        }
        i = i + 1;
    }
    proof {
        if floating_ids(*ws).contains(id) {
            let j = choose|j: int| 0 <= j < floating_ids(*ws).len() && floating_ids(*ws)[j] == id;
            assert(ws.floating_nodes@[j].id == id);
        }
    }
    false
}

/// Ids of the scratchpads that are showing, in the scratch workspace's focus
/// order.
pub fn showing_scratch_ids(scratch: &Node) -> (r: Vec<i64>)
    ensures
        r@ == showing_ids(*scratch),
{
    let ghost p = not_floating_in(*scratch);
    let mut out: Vec<i64> = Vec::new();
    let mut i: usize = 0;
    proof {
        assert(scratch.focus@.subrange(0, 0) =~= Seq::<i64>::empty());
    }
    while i < scratch.focus.len()
        invariant
            0 <= i <= scratch.focus@.len(),
            p == not_floating_in(*scratch),
            out@ == scratch.focus@.subrange(0, i as int).filter(p),
        decreases scratch.focus@.len() - i,
    {
        let id = scratch.focus[i];
        proof {
            reveal(Seq::filter);
            assert(scratch.focus@.subrange(0, i + 1).drop_last() =~= scratch.focus@.subrange(0, i as int));
        }
        if !is_floating_in(scratch, id) {
            out.push(id);
        }
        i = i + 1;
    }
    proof {
        assert(scratch.focus@.subrange(0, i as int) =~= scratch.focus@);
    }
    out
}

} // verus!

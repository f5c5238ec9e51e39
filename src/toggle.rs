use vstd::prelude::*;
use crate::classify::{
    classify, conflict_ids, conflicts, selector_text, target_matches, target_showing_on, Target,
};
use crate::command::{
    batch_groups, batch_text, hide_group, hide_groups, lemma_hide_group_injective,
    lemma_target_group_not_hide, reparent_cmd, reparent_command, show_command, spawn_cmd, spawn_command, target_group, text_of, CommandBatch,
};
use crate::tree::{scratch_workspace, scratch_workspace_of, Node, TreeError};
use crate::visibility::{
    floating_ids, focused_workspace, focused_workspace_of, lemma_showing_is_difference,
    showing_ids, showing_scratch_ids,
};

verus! {

/// The groups planned for a tree: hide the other scratchpads showing on the
/// focused workspace, then toggle the target. A tree without the scratch
/// workspace, or without a focused workspace, is refused.
pub open spec fn plan_of(tree: Node, t: Target, resize: Option<Seq<char>>) -> Result<
    Seq<Seq<Seq<char>>>,
    TreeError,
> {
    match scratch_workspace_of(tree) {
        None => Err(TreeError::ScratchContainerNotFound),
        Some(scratch) => {
            let showing = showing_ids(scratch);
            match focused_workspace_of(tree) {
                None => Err(TreeError::FocusedWorkspaceNotFound),
                Some(ws) => Ok(
                    batch_groups(
                        conflict_ids(ws, showing, t),
                        selector_text(t),
                        target_showing_on(ws, showing, t),
                        resize,
                    ),
                ),
            }
        },
    }
}

/// Plans the command batch that toggles `target` in `tree`.
pub fn plan(tree: &Node, target: &Target, resize: &Option<String>) -> (r: Result<CommandBatch, TreeError>)
    ensures
        match r {
            Ok(b) => plan_of(*tree, *target, text_of(*resize)) == Ok::<_, TreeError>(b@),
            Err(e) => plan_of(*tree, *target, text_of(*resize)) == Err::<Seq<Seq<Seq<char>>>, _>(e),
        },
{
    let scratch = match scratch_workspace(tree) {
        Ok(ws) => ws,
        Err(e) => {
            return Err(e);
        },
    };
    let showing = showing_scratch_ids(scratch);
    let selector = target.selector();
    let focused = match focused_workspace(tree) {
        Ok(ws) => ws,
        Err(e) => {
            return Err(e);
        },
    };
    let found = classify(focused, &showing, target);
    Ok(CommandBatch::build(&found.non_target_ids, selector.as_str(), found.target_showing, resize))
}

proof fn lemma_filter_none(s: Seq<Node>, p: spec_fn(Node) -> bool)
    requires
        forall|k: int| 0 <= k < s.len() ==> !p(#[trigger] s[k]),
    ensures
        s.filter(p).len() == 0,
{
    broadcast use vstd::seq_lib::group_filter_ensures;

    if s.filter(p).len() > 0 {
        let x = s.filter(p)[0];
        assert(s.filter(p).contains(x));
        assert(p(x));
        s.lemma_filter_contains_rev(p, x);
        let i = choose|i: int| 0 <= i < s.len() && s[i] == x;
        assert(!p(s[i]));
    }
}

proof fn lemma_filter_first(s: Seq<Node>, p: spec_fn(Node) -> bool, k: int)
    requires
        0 <= k < s.len(),
        p(s[k]),
        forall|j: int| 0 <= j < k ==> !p(#[trigger] s[j]),
    ensures
        s.filter(p).len() > 0,
        s.filter(p)[0] == s[k],
{
    broadcast use vstd::seq_lib::group_filter_ensures;

    let before = s.subrange(0, k);
    let rest = s.subrange(k, s.len() as int);
    assert(s =~= before + rest);
    Seq::filter_distributes_over_add(before, rest, p);
    assert forall|j: int| 0 <= j < before.len() implies !p(#[trigger] before[j]) by {
        assert(before[j] == s[j]);
    }
    lemma_filter_none(before, p);
    let one = seq![s[k]];
    let after = s.subrange(k + 1, s.len() as int);
    assert(rest =~= one + after);
    Seq::filter_distributes_over_add(one, after, p);
    reveal(Seq::filter);
    assert(one.drop_last() =~= Seq::<Node>::empty());
    assert(one.filter(p) =~= one);
    assert(s.filter(p) =~= before.filter(p) + (one + after.filter(p)));
}

/// When the one showing scratchpad is the target, on the focused workspace,
/// the plan toggles the target alone: no group hides another scratchpad, and
/// the toggle carries no resize, whatever resize was asked for (it is about
/// to hide the target).
pub proof fn lemma_lone_target_toggles_alone(
    tree: Node,
    t: Target,
    resize: Option<Seq<char>>,
    scratch: Node,
    ws: Node,
    k: int,
)
    requires
        scratch_workspace_of(tree) == Some(scratch),
        focused_workspace_of(tree) == Some(ws),
        0 <= k < ws.floating_nodes@.len(),
        showing_ids(scratch).to_set() == set![ws.floating_nodes@[k].id],
        forall|j: int|
            0 <= j < ws.floating_nodes@.len() && (#[trigger] ws.floating_nodes@[j]).id
                == ws.floating_nodes@[k].id ==> target_matches(t, ws.floating_nodes@[j]),
    ensures
        plan_of(tree, t, resize) == Ok::<_, TreeError>(seq![seq![show_command(selector_text(t))]]),
{
    let showing = showing_ids(scratch);
    let floating = ws.floating_nodes@;
    let id = floating[k].id;
    assert(showing.to_set().contains(id));
    assert(showing.contains(id));
    assert(showing.len() > 0);
    assert forall|j: int| 0 <= j < floating.len() implies !conflicts(showing, t)(
        #[trigger] floating[j],
    ) by {
        if showing.contains(floating[j].id) {
            assert(showing.to_set().contains(floating[j].id));
            assert(floating[j].id == id);
        }
    }
    lemma_filter_none(floating, conflicts(showing, t));
    assert(conflict_ids(ws, showing, t) =~= Seq::<i64>::empty());
    assert(target_showing_on(ws, showing, t)) by {
        assert(showing.contains(floating[k].id));
    }
    assert(hide_groups(Seq::<i64>::empty()) =~= Seq::empty());
    assert(batch_groups(Seq::<i64>::empty(), selector_text(t), true, resize) =~= seq![
        seq![show_command(selector_text(t))],
    ]);
}

/// A showing scratchpad on the focused workspace that is not the target is
/// hidden by the plan's first group, ahead of the target's group, when it is
/// the first such one among the workspace's floating children.
pub proof fn lemma_conflict_hidden_first(
    tree: Node,
    t: Target,
    resize: Option<Seq<char>>,
    scratch: Node,
    ws: Node,
    k: int,
)
    requires
        scratch_workspace_of(tree) == Some(scratch),
        focused_workspace_of(tree) == Some(ws),
        0 <= k < ws.floating_nodes@.len(),
        showing_ids(scratch).contains(ws.floating_nodes@[k].id),
        !target_matches(t, ws.floating_nodes@[k]),
        forall|j: int|
            0 <= j < k ==> !conflicts(showing_ids(scratch), t)(#[trigger] ws.floating_nodes@[j]),
    ensures
        match plan_of(tree, t, resize) {
            Ok(g) => g.len() >= 2 && g[0] == hide_group(ws.floating_nodes@[k].id) && g.last()
                == target_group(
                selector_text(t),
                target_showing_on(ws, showing_ids(scratch), t),
                resize,
            ),
            Err(_) => false,
        },
{
    let showing = showing_ids(scratch);
    let floating = ws.floating_nodes@;
    assert(showing.len() > 0);
    lemma_filter_first(floating, conflicts(showing, t), k);
    let ids = conflict_ids(ws, showing, t);
    assert(ids[0] == floating[k].id);
    assert(hide_groups(ids)[0] == hide_group(ids[0]));
}

proof fn lemma_selector_shape(t: Target)
    ensures
        selector_text(t).len() >= 2,
        selector_text(t)[1] == 'p' || selector_text(t)[1] == 'l',
{
    reveal_strlit("app_id=");
    reveal_strlit("class=");
}

/// The plan hides the scratchpad with id `x` exactly when `x` is in the
/// scratch workspace's focus order but not among its floating (hidden)
/// children, and is the id of a floating child of the focused workspace that
/// is not the target.
pub proof fn lemma_hidden_exactly_showing_conflicts(
    tree: Node,
    t: Target,
    resize: Option<Seq<char>>,
    scratch: Node,
    ws: Node,
    x: i64,
)
    requires
        scratch_workspace_of(tree) == Some(scratch),
        focused_workspace_of(tree) == Some(ws),
    ensures
        match plan_of(tree, t, resize) {
            Ok(g) => g.contains(hide_group(x)) <==> {
                &&& scratch.focus@.contains(x)
                &&& !floating_ids(scratch).contains(x)
                &&& exists|k: int|
                    0 <= k < ws.floating_nodes@.len() && (#[trigger] ws.floating_nodes@[k]).id == x
                        && !target_matches(t, ws.floating_nodes@[k])
            },
            Err(_) => false,
        },
{
    broadcast use vstd::seq_lib::group_filter_ensures;

    let showing = showing_ids(scratch);
    let floating = ws.floating_nodes@;
    let p = conflicts(showing, t);
    let filtered = floating.filter(p);
    let ids = conflict_ids(ws, showing, t);
    let tg = target_group(
        selector_text(t),
        target_showing_on(ws, showing, t),
        resize,
    );
    let g = batch_groups(ids, selector_text(t), target_showing_on(ws, showing, t), resize);
    let hs = hide_groups(ids);
    lemma_selector_shape(t);
    lemma_target_group_not_hide(selector_text(t), target_showing_on(ws, showing, t), resize, x);
    lemma_showing_is_difference(scratch);
    assert(showing.contains(x) <==> showing.to_set().contains(x));
    assert(scratch.focus@.contains(x) <==> scratch.focus@.to_set().contains(x));
    assert(floating_ids(scratch).contains(x) <==> floating_ids(scratch).to_set().contains(x));
    let wanted = exists|k: int|
        0 <= k < floating.len() && (#[trigger] floating[k]).id == x && !target_matches(t, floating[k]);
    if g.contains(hide_group(x)) {
        let i = choose|i: int| 0 <= i < g.len() && g[i] == hide_group(x);
        assert(i < hs.len());
        assert(hs[i] == hide_group(ids[i]));
        lemma_hide_group_injective(ids[i], x);
        assert(ids[i] == filtered[i].id);
        assert(filtered.contains(filtered[i]));
        floating.lemma_filter_contains_rev(p, filtered[i]);
        let k = choose|k: int| 0 <= k < floating.len() && floating[k] == filtered[i];
        assert(p(filtered[i]));
        assert(floating[k].id == x);
    }
    if showing.contains(x) && wanted {
        let k = choose|k: int|
            0 <= k < floating.len() && (#[trigger] floating[k]).id == x && !target_matches(t, floating[k]);
        assert(p(floating[k]));
        assert(filtered.contains(floating[k]));
        let i = choose|i: int| 0 <= i < filtered.len() && filtered[i] == floating[k];
        assert(ids[i] == x);
        assert(hs[i] == hide_group(x));
        assert(g[i] == hide_group(x));
    }
}

/// Where a toggle stands.
#[derive(Clone, Copy, Debug, PartialEq, Eq, Structural)]
pub enum ToggleState {
    /// The batch was sent.
    Submitted,
    /// The toggle failed; the target was asked back into the scratchpad.
    RecoveringReparent,
    /// The target was not found; its program was asked to start.
    RecoveringSpawn,
    /// Done.
    Satisfied,
    /// The program could not be started.
    Failed,
}

/// The state a toggle moves to, and the command to send next, if any.
#[derive(Debug)]
pub struct Step {
    pub state: ToggleState,
    pub command: Option<String>,
}

/// Whether the results of the command sent in `state` tell of success: the
/// last result for the batch (the target's group), the first one for a
/// single recovery command. No result at all is a failure.
pub open spec fn succeeded(state: ToggleState, results: Seq<bool>) -> bool {
    results.len() > 0 && if state is Submitted {
        results.last()
    } else {
        results[0]
    }
}

/// The state after the command sent in `state` succeeded or failed.
pub open spec fn next_state(state: ToggleState, ok: bool) -> ToggleState {
    match state {
        ToggleState::Submitted => if ok {
            ToggleState::Satisfied
        } else {
            ToggleState::RecoveringReparent
        },
        ToggleState::RecoveringReparent => if ok {
            ToggleState::Satisfied
        } else {
            ToggleState::RecoveringSpawn
        },
        ToggleState::RecoveringSpawn => if ok {
            ToggleState::Satisfied
        } else {
            ToggleState::Failed
        },
        ToggleState::Satisfied => ToggleState::Satisfied,
        ToggleState::Failed => ToggleState::Failed,
    }
}

/// Starts a toggle: the batch is to be sent.
pub fn begin(batch: &CommandBatch) -> (r: Step)
    ensures
        r.state == ToggleState::Submitted,
        r.command is Some && r.command->0@ == batch_text(batch@),
{
    Step { state: ToggleState::Submitted, command: Some(batch.render()) }
}

/// Moves a toggle on, given the results of the command sent in `state`.
/// A recovery state names the command to send next; `Satisfied` and `Failed`
/// send nothing and stay as they are.
pub fn advance(state: ToggleState, results: &Vec<bool>, selector: &str, exec: &str) -> (r: Step)
    ensures
        r.state == next_state(state, succeeded(state, results@)),
        r.state == ToggleState::RecoveringReparent ==> r.command is Some && r.command->0@
            == reparent_command(selector@),
        r.state == ToggleState::RecoveringSpawn ==> r.command is Some && r.command->0@
            == spawn_command(exec@),
        (r.state == ToggleState::Satisfied || r.state == ToggleState::Failed) ==> r.command is None,
{
    let ok = if results.len() == 0 {
        false
    } else if state == ToggleState::Submitted {
        results[results.len() - 1]
    } else {
        results[0]
    };
    match state {
        ToggleState::Submitted => if ok {
            Step { state: ToggleState::Satisfied, command: None }
        } else {
            Step { state: ToggleState::RecoveringReparent, command: Some(reparent_cmd(selector)) }
        },
        ToggleState::RecoveringReparent => if ok {
            Step { state: ToggleState::Satisfied, command: None }
        } else {
            Step { state: ToggleState::RecoveringSpawn, command: Some(spawn_cmd(exec)) }
        },
        ToggleState::RecoveringSpawn => if ok {
            Step { state: ToggleState::Satisfied, command: None }
        } else {
            Step { state: ToggleState::Failed, command: None }
        },
        ToggleState::Satisfied => Step { state: ToggleState::Satisfied, command: None },
        ToggleState::Failed => Step { state: ToggleState::Failed, command: None },
    }
}

} // verus!

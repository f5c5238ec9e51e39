use sway_scratch::classify::{classify, Target};
use sway_scratch::cli::Criteria;
use sway_scratch::command::{decimal_text, join_texts, reparent_cmd, spawn_cmd, CommandBatch};
use sway_scratch::toggle::{advance, begin, plan, ToggleState};
use sway_scratch::tree::{scratch_workspace, Node, TreeError};
use sway_scratch::visibility::{focused_workspace, showing_scratch_ids};

fn node(id: i64) -> Node {
    Node {
        id,
        name: None,
        app_id: None,
        window_class: None,
        focused: false,
        nodes: Vec::new(),
        floating_nodes: Vec::new(),
        focus: Vec::new(),
    }
}

fn named(id: i64, name: &str, nodes: Vec<Node>) -> Node {
    let mut n = node(id);
    n.name = Some(name.to_string());
    n.nodes = nodes;
    n
}

fn app(id: i64, app_id: &str) -> Node {
    let mut n = node(id);
    n.app_id = Some(app_id.to_string());
    n
}

fn xwindow(id: i64, class: &str) -> Node {
    let mut n = node(id);
    n.window_class = Some(class.to_string());
    n
}

/// A scratch workspace listing `focus`, with the hidden scratchpads floating.
fn scratch_ws(focus: Vec<i64>, hidden: Vec<Node>) -> Node {
    let mut ws = named(3, "__i3_scratch", Vec::new());
    ws.focus = focus;
    ws.floating_nodes = hidden;
    ws
}

/// A tree with the scratch output and one ordinary output holding `ws`.
fn tree_with(scratch: Node, ws: Node) -> Node {
    named(
        1,
        "root",
        vec![named(2, "__i3", vec![scratch]), named(10, "eDP-1", vec![ws])],
    )
}

fn focused_ws(floating: Vec<Node>) -> Node {
    let mut ws = named(11, "1", Vec::new());
    ws.focused = true;
    ws.floating_nodes = floating;
    ws
}

fn groups(b: &CommandBatch) -> Vec<Vec<String>> {
    b.groups.clone()
}

const RESIZE: &str = "set 90 ppt 90 ppt";

fn resize() -> Option<String> {
    Some(RESIZE.to_string())
}

#[test]
fn scratch_output_missing() {
    let tree = named(1, "root", vec![named(10, "eDP-1", vec![focused_ws(Vec::new())])]);
    assert_eq!(scratch_workspace(&tree).unwrap_err(), TreeError::ScratchContainerNotFound);
    let target = Target::AppId("foo".to_string());
    assert_eq!(plan(&tree, &target, &None).unwrap_err(), TreeError::ScratchContainerNotFound);
}

#[test]
fn scratch_workspace_missing() {
    let tree = named(1, "root", vec![named(2, "__i3", vec![named(3, "other", Vec::new())])]);
    assert_eq!(scratch_workspace(&tree).unwrap_err(), TreeError::ScratchContainerNotFound);
}

#[test]
fn scratch_workspace_found() {
    let tree = tree_with(scratch_ws(vec![5], Vec::new()), focused_ws(Vec::new()));
    let ws = scratch_workspace(&tree).unwrap();
    assert_eq!(ws.id, 3);
    assert_eq!(ws.focus, vec![5]);
}

#[test]
fn showing_is_focus_less_floating() {
    let ws = scratch_ws(vec![4, 7, 9, 12], vec![app(7, "a"), app(12, "b")]);
    assert_eq!(showing_scratch_ids(&ws), vec![4, 9]);
    let all_hidden = scratch_ws(vec![7], vec![app(7, "a")]);
    assert!(showing_scratch_ids(&all_hidden).is_empty());
    let empty = scratch_ws(Vec::new(), Vec::new());
    assert!(showing_scratch_ids(&empty).is_empty());
}

#[test]
fn no_focused_workspace() {
    let mut ws = focused_ws(vec![app(20, "a")]);
    ws.focused = false;
    let tree = tree_with(scratch_ws(Vec::new(), Vec::new()), ws);
    assert_eq!(focused_workspace(&tree).unwrap_err(), TreeError::FocusedWorkspaceNotFound);
}

#[test]
fn focused_workspace_through_children() {
    let mut tiled = named(11, "1", vec![node(30)]);
    tiled.nodes[0].focused = true;
    let tree = tree_with(scratch_ws(Vec::new(), Vec::new()), tiled);
    assert_eq!(focused_workspace(&tree).unwrap().id, 11);

    let mut floating = named(12, "2", Vec::new());
    floating.floating_nodes = vec![node(31)];
    floating.floating_nodes[0].focused = true;
    let tree = tree_with(scratch_ws(Vec::new(), Vec::new()), floating);
    assert_eq!(focused_workspace(&tree).unwrap().id, 12);
}

#[test]
fn focused_workspace_first_of_several() {
    let mut other = named(13, "3", Vec::new());
    other.focused = false;
    let tree = named(
        1,
        "root",
        vec![
            named(2, "__i3", vec![scratch_ws(Vec::new(), Vec::new())]),
            named(10, "eDP-1", vec![other]),
            named(20, "HDMI-1", vec![named(21, "4", Vec::new()), focused_ws(Vec::new())]),
        ],
    );
    assert_eq!(focused_workspace(&tree).unwrap().id, 11);
}

#[test]
fn plan_needs_focused_workspace_when_something_shows() {
    let mut ws = focused_ws(vec![app(20, "a")]);
    ws.focused = false;
    let tree = tree_with(scratch_ws(vec![20], Vec::new()), ws);
    let target = Target::AppId("a".to_string());
    assert_eq!(plan(&tree, &target, &None).unwrap_err(), TreeError::FocusedWorkspaceNotFound);
}

#[test]
fn plan_needs_focused_workspace_when_nothing_shows() {
    let mut ws = focused_ws(Vec::new());
    ws.focused = false;
    let tree = tree_with(scratch_ws(vec![20], vec![app(20, "a")]), ws);
    let target = Target::AppId("a".to_string());
    assert_eq!(plan(&tree, &target, &None).unwrap_err(), TreeError::FocusedWorkspaceNotFound);
}

#[test]
fn decimal_matches_std() {
    for n in [0i64, 7, 10, 42, 1234567, -1, -7, -90, i64::MAX, i64::MIN] {
        assert_eq!(decimal_text(n), format!("{n}"));
    }
}

#[test]
fn selectors() {
    assert_eq!(Target::AppId("foot".to_string()).selector(), "app_id=foot");
    assert_eq!(Target::Class("Firefox".to_string()).selector(), "class=Firefox");
}

#[test]
fn matching_by_app_id_and_class() {
    let by_app = Target::AppId("foot".to_string());
    let by_class = Target::Class("Firefox".to_string());
    assert!(by_app.matches(&app(1, "foot")));
    assert!(!by_app.matches(&app(1, "foo")));
    assert!(!by_app.matches(&xwindow(1, "foot")));
    assert!(by_class.matches(&xwindow(1, "Firefox")));
    assert!(!by_class.matches(&app(1, "Firefox")));
    assert!(!by_class.matches(&node(1)));
}

#[test]
fn classify_sorts_conflicts_in_order() {
    let ws = focused_ws(vec![app(5, "b"), app(6, "a"), app(7, "c"), app(8, "d")]);
    let target = Target::AppId("a".to_string());
    let found = classify(&ws, &vec![8, 6, 5], &target);
    assert_eq!(found.non_target_ids, vec![5, 8]);
    assert!(found.target_showing);
    let found = classify(&ws, &vec![7], &target);
    assert_eq!(found.non_target_ids, vec![7]);
    assert!(!found.target_showing);
}

#[test]
fn join_texts_separates() {
    assert_eq!(join_texts(&Vec::new(), ","), "");
    assert_eq!(join_texts(&vec!["a".to_string()], ","), "a");
    assert_eq!(join_texts(&vec!["a".to_string(), "b".to_string(), "c".to_string()], ";"), "a;b;c");
}

#[test]
fn build_batch_exact() {
    let batch = CommandBatch::build(&vec![12, 7], "app_id=foo", false, &resize());
    assert_eq!(
        groups(&batch),
        vec![
            vec!["[con_id=12] scratchpad show".to_string()],
            vec!["[con_id=7] scratchpad show".to_string()],
            vec![
                "[app_id=foo] scratchpad show".to_string(),
                "resize set 90 ppt 90 ppt".to_string(),
                "move position center".to_string(),
            ],
        ]
    );
    assert_eq!(
        batch.render(),
        "[con_id=12] scratchpad show;[con_id=7] scratchpad show;\
         [app_id=foo] scratchpad show,resize set 90 ppt 90 ppt,move position center"
    );
}

#[test]
fn build_batch_without_resize() {
    let batch = CommandBatch::build(&Vec::new(), "class=Bar", false, &None);
    assert_eq!(batch.render(), "[class=Bar] scratchpad show");
    let batch = CommandBatch::build(&Vec::new(), "class=Bar", true, &resize());
    assert_eq!(batch.render(), "[class=Bar] scratchpad show");
}

#[test]
fn batch_is_deterministic() {
    let a = CommandBatch::build(&vec![3, 4], "app_id=x", false, &resize()).render();
    let b = CommandBatch::build(&vec![3, 4], "app_id=x", false, &resize()).render();
    assert_eq!(a, b);
}

#[test]
fn lone_target_toggles_alone() {
    let tree = tree_with(
        scratch_ws(vec![20, 21], vec![app(21, "other")]),
        focused_ws(vec![app(20, "foo")]),
    );
    let target = Target::AppId("foo".to_string());
    let batch = plan(&tree, &target, &resize()).unwrap();
    assert_eq!(groups(&batch), vec![vec!["[app_id=foo] scratchpad show".to_string()]]);
}

#[test]
fn conflict_is_hidden_first() {
    let tree = tree_with(
        scratch_ws(vec![20, 21], Vec::new()),
        focused_ws(vec![app(21, "other"), app(20, "foo")]),
    );
    let target = Target::AppId("foo".to_string());
    let batch = plan(&tree, &target, &None).unwrap();
    let g = groups(&batch);
    assert_eq!(g.len(), 2);
    assert_eq!(g[0], vec!["[con_id=21] scratchpad show".to_string()]);
    assert_eq!(g[1], vec!["[app_id=foo] scratchpad show".to_string()]);
}

#[test]
fn showing_elsewhere_is_left_alone() {
    let mut tree = tree_with(scratch_ws(vec![20, 21], Vec::new()), focused_ws(vec![app(20, "a")]));
    let mut away = named(40, "9", Vec::new());
    away.floating_nodes = vec![app(21, "b")];
    tree.nodes[1].nodes.push(away);
    let target = Target::AppId("c".to_string());
    let batch = plan(&tree, &target, &resize()).unwrap();
    assert_eq!(
        batch.render(),
        "[con_id=20] scratchpad show;\
         [app_id=c] scratchpad show,resize set 90 ppt 90 ppt,move position center"
    );
}

#[test]
fn first_use_spawns() {
    let tree = tree_with(scratch_ws(Vec::new(), Vec::new()), focused_ws(Vec::new()));
    let target = Target::AppId("foo".to_string());
    let batch = plan(&tree, &target, &resize()).unwrap();
    let step = begin(&batch);
    assert_eq!(step.state, ToggleState::Submitted);
    assert_eq!(
        step.command.unwrap(),
        "[app_id=foo] scratchpad show,resize set 90 ppt 90 ppt,move position center"
    );
    let selector = target.selector();
    let step = advance(ToggleState::Submitted, &vec![false, false, false], &selector, "foot -a foo");
    assert_eq!(step.state, ToggleState::RecoveringReparent);
    assert_eq!(step.command.unwrap(), "[app_id=foo] move scratchpad");
    let step = advance(ToggleState::RecoveringReparent, &vec![false], &selector, "foot -a foo");
    assert_eq!(step.state, ToggleState::RecoveringSpawn);
    assert_eq!(step.command.unwrap(), "exec foot -a foo");
    let step = advance(ToggleState::RecoveringSpawn, &vec![true], &selector, "foot -a foo");
    assert_eq!(step.state, ToggleState::Satisfied);
    assert!(step.command.is_none());
}

#[test]
fn toggle_hides_showing_target() {
    let tree = tree_with(scratch_ws(vec![20], Vec::new()), focused_ws(vec![app(20, "foo")]));
    let target = Target::AppId("foo".to_string());
    let batch = plan(&tree, &target, &resize()).unwrap();
    let step = begin(&batch);
    assert_eq!(step.command.unwrap(), "[app_id=foo] scratchpad show");
    let step = advance(ToggleState::Submitted, &vec![true], &target.selector(), "foot");
    assert_eq!(step.state, ToggleState::Satisfied);
    assert!(step.command.is_none());
}

#[test]
fn conflict_swap() {
    let tree = tree_with(
        scratch_ws(vec![20, 21], vec![app(21, "A")]),
        focused_ws(vec![app(20, "B")]),
    );
    let target = Target::AppId("A".to_string());
    let batch = plan(&tree, &target, &resize()).unwrap();
    assert_eq!(
        groups(&batch),
        vec![
            vec!["[con_id=20] scratchpad show".to_string()],
            vec![
                "[app_id=A] scratchpad show".to_string(),
                "resize set 90 ppt 90 ppt".to_string(),
                "move position center".to_string(),
            ],
        ]
    );
    let step = advance(ToggleState::Submitted, &vec![true, true, true, true], &target.selector(), "x");
    assert_eq!(step.state, ToggleState::Satisfied);
}

#[test]
fn class_target_plan() {
    let tree = tree_with(
        scratch_ws(vec![20], Vec::new()),
        focused_ws(vec![xwindow(20, "Keepassxc")]),
    );
    let target = Target::Class("Keepassxc".to_string());
    let batch = plan(&tree, &target, &resize()).unwrap();
    assert_eq!(batch.render(), "[class=Keepassxc] scratchpad show");
}

#[test]
fn batch_failure_reads_last_result() {
    let step = advance(ToggleState::Submitted, &vec![true, false], "app_id=a", "a");
    assert_eq!(step.state, ToggleState::RecoveringReparent);
    let step = advance(ToggleState::Submitted, &vec![false, true], "app_id=a", "a");
    assert_eq!(step.state, ToggleState::Satisfied);
}

#[test]
fn reparent_succeeds() {
    let step = advance(ToggleState::RecoveringReparent, &vec![true], "app_id=a", "a");
    assert_eq!(step.state, ToggleState::Satisfied);
    assert!(step.command.is_none());
}

#[test]
fn spawn_failure_fails() {
    let step = advance(ToggleState::RecoveringSpawn, &vec![false], "app_id=a", "a");
    assert_eq!(step.state, ToggleState::Failed);
    assert!(step.command.is_none());
}

#[test]
fn no_results_is_failure() {
    let step = advance(ToggleState::Submitted, &Vec::new(), "app_id=a", "a");
    assert_eq!(step.state, ToggleState::RecoveringReparent);
}

#[test]
fn terminal_states_stay() {
    let step = advance(ToggleState::Satisfied, &vec![false], "app_id=a", "a");
    assert_eq!(step.state, ToggleState::Satisfied);
    let step = advance(ToggleState::Failed, &vec![true], "app_id=a", "a");
    assert_eq!(step.state, ToggleState::Failed);
    assert!(step.command.is_none());
}

#[test]
fn recovery_commands() {
    assert_eq!(reparent_cmd("class=X"), "[class=X] move scratchpad");
    assert_eq!(spawn_cmd("kitty --class X"), "exec kitty --class X");
}

#[test]
fn criteria_targets() {
    let both = Criteria { app_id: Some("a".to_string()), class: Some("b".to_string()) };
    assert!(matches!(both.target(), Some(Target::AppId(v)) if v == "a"));
    let class = Criteria { app_id: None, class: Some("b".to_string()) };
    assert!(matches!(class.target(), Some(Target::Class(v)) if v == "b"));
    let none = Criteria { app_id: None, class: None };
    assert!(none.target().is_none());
}

#[test]
fn only_showing_conflicts_are_hidden() {
    let tree = tree_with(
        scratch_ws(vec![20, 21, 22], vec![app(22, "c")]),
        focused_ws(vec![app(20, "b"), app(22, "c"), app(23, "d"), app(21, "a")]),
    );
    let target = Target::AppId("a".to_string());
    let batch = plan(&tree, &target, &resize()).unwrap();
    assert_eq!(
        groups(&batch),
        vec![
            vec!["[con_id=20] scratchpad show".to_string()],
            vec!["[app_id=a] scratchpad show".to_string()],
        ]
    );
}

use vstd::prelude::*;
use vstd::string::*;

verus! {

/// One element of the window manager's tree, holding what the planning
/// logic reads of it.
#[derive(Debug)]
pub struct Node {
    pub id: i64,
    pub name: Option<String>,
    pub app_id: Option<String>,
    /// The X11 window class, for windows running under Xwayland.
    pub window_class: Option<String>,
    pub focused: bool,
    /// Tiled children, in the manager's order.
    pub nodes: Vec<Node>,
    /// Floating children, in the manager's order.
    pub floating_nodes: Vec<Node>,
    /// Ids of the children in focus order.
    pub focus: Vec<i64>,
}

/// A snapshot that breaks one of the manager's guarantees.
#[derive(Clone, Copy, Debug, PartialEq, Eq, Structural)]
pub enum TreeError {
    /// No `__i3` output, or no `__i3_scratch` workspace on it.
    ScratchContainerNotFound,
    /// No workspace is focused or holds a focused child.
    FocusedWorkspaceNotFound,
}

/// Name of the output that the manager reserves for the scratchpad.
pub const SCRATCH_OUTPUT_NAME: &'static str = "__i3";

/// Name of the workspace on the scratch output that parks scratchpads.
pub const SCRATCH_WORKSPACE_NAME: &'static str = "__i3_scratch";

pub open spec fn has_name(n: Node, name: Seq<char>) -> bool {
    n.name is Some && n.name->0@ == name
}

/// The first node of `s` that satisfies `p`, if any.
pub open spec fn first_match(s: Seq<Node>, p: spec_fn(Node) -> bool) -> Option<Node>
    decreases s.len(),
{
    if s.len() == 0 {
        None
    } else if p(s[0]) {
        Some(s[0])
    } else {
        first_match(s.drop_first(), p)
    }
}

pub open spec fn named(name: Seq<char>) -> spec_fn(Node) -> bool {
    |n: Node| has_name(n, name)
}

/// The scratch workspace: the first workspace named `__i3_scratch` on the
/// first output named `__i3`.
pub open spec fn scratch_workspace_of(tree: Node) -> Option<Node> {
    match first_match(tree.nodes@, named(SCRATCH_OUTPUT_NAME@)) {
        Some(output) => first_match(output.nodes@, named(SCRATCH_WORKSPACE_NAME@)),
        None => None,
    }
}

proof fn lemma_first_match_step(s: Seq<Node>, p: spec_fn(Node) -> bool, i: int)
    requires
        0 <= i < s.len(),
        !p(s[i]),
    ensures
        first_match(s.subrange(i, s.len() as int), p) == first_match(
            s.subrange(i + 1, s.len() as int),
            p,
        ),
{
    assert(s.subrange(i, s.len() as int).drop_first() =~= s.subrange(i + 1, s.len() as int));
}

proof fn lemma_first_match_hit(s: Seq<Node>, p: spec_fn(Node) -> bool, i: int)
    requires
        0 <= i < s.len(),
        p(s[i]),
    ensures
        first_match(s.subrange(i, s.len() as int), p) == Some(s[i]),
{
}

fn is_named(n: &Node, name: &str) -> (r: bool)
    ensures
        r == has_name(*n, name@),
{
    match &n.name {
        Some(s) => *s == String::from_str(name),
        None => false,
    }
}

/// Position of the first node in `nodes` with the given name.
fn find_named(nodes: &Vec<Node>, name: &str) -> (r: Option<usize>)
    ensures
        match r {
            Some(i) => i < nodes@.len() && first_match(nodes@, named(name@)) == Some(nodes@[i as int]),
            None => first_match(nodes@, named(name@)) is None,
        },
{
    let mut i: usize = 0;
    proof {
        assert(nodes@.subrange(0, nodes@.len() as int) =~= nodes@);
    }
    while i < nodes.len()
        invariant
            0 <= i <= nodes@.len(),
            first_match(nodes@, named(name@)) == first_match(
                nodes@.subrange(i as int, nodes@.len() as int),
                named(name@),
            ),
        decreases nodes@.len() - i,
    {
        if is_named(&nodes[i], name) {
            proof {
                lemma_first_match_hit(nodes@, named(name@), i as int);
            }
            return Some(i);
        }
        proof {
            lemma_first_match_step(nodes@, named(name@), i as int);
        }
        i = i + 1;
    }
    proof {
        assert(nodes@.subrange(i as int, nodes@.len() as int).len() == 0);
    }
    None
}

/// Finds the scratch workspace of the tree.
pub fn scratch_workspace(tree: &Node) -> (r: Result<&Node, TreeError>)
    ensures
        match r {
            Ok(ws) => scratch_workspace_of(*tree) == Some(*ws),
            Err(e) => scratch_workspace_of(*tree) is None && e == TreeError::ScratchContainerNotFound,
        },
{
    match find_named(&tree.nodes, SCRATCH_OUTPUT_NAME) {
        Some(i) => {
            let output = &tree.nodes[i];
            match find_named(&output.nodes, SCRATCH_WORKSPACE_NAME) {
                Some(j) => Ok(&output.nodes[j]),
                None => Err(TreeError::ScratchContainerNotFound),
            }
        },
        None => Err(TreeError::ScratchContainerNotFound),
    }
}

} // verus!

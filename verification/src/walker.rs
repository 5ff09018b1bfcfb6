//! The tree walker: extracts the ordered workspace nodes from a scene-tree
//! snapshot, and the window nodes of one workspace in a deterministic
//! pre-order depth-first traversal (parent before children, children in
//! their listed order), floating windows appended after tiling windows.

use vstd::prelude::*;
use crate::node::{Node, NodeType, is_window_node};
use crate::config::{Config, spec_option, get_option};
use crate::resolver::{raw_class, display_of, get_class};
use crate::compose::views_of;

verus! {

/// The sequence of nodes that a sequence of node references points at.
pub open spec fn deref_all(s: Seq<&Node>) -> Seq<Node> {
    s.map_values(|p: &Node| *p)
}

/// The workspace-tagged nodes among `children`, in their listed order.
pub open spec fn workspaces_in(children: Seq<Node>) -> Seq<Node>
    decreases children.len(),
{
    if children.len() == 0 {
        Seq::empty()
    } else {
        workspaces_in(children.drop_last()) + if children.last().node_type is Workspace {
            seq![children.last()]
        } else {
            Seq::empty()
        }
    }
}

/// The workspaces of each output in `outputs`, outputs in their listed order.
pub open spec fn workspaces_of_outputs(outputs: Seq<Node>) -> Seq<Node>
    decreases outputs.len(),
{
    if outputs.len() == 0 {
        Seq::empty()
    } else {
        workspaces_of_outputs(outputs.drop_last()) + workspaces_in(outputs.last().nodes@)
    }
}

/// The ordered workspace nodes of a snapshot: the root's children are the
/// outputs, and exactly the workspace-tagged children of each output are
/// collected, in the order outputs and their children appear.
pub open spec fn workspaces_of(tree: Node) -> Seq<Node> {
    workspaces_of_outputs(tree.nodes@)
}

/// Return the ordered workspace nodes of the snapshot `tree`.
pub fn get_workspaces<'a>(tree: &'a Node) -> (out: Vec<&'a Node>)
    ensures
        deref_all(out@) == workspaces_of(*tree),
{
    let mut out: Vec<&'a Node> = Vec::new();
    let mut i: usize = 0;
    assert(deref_all(out@) =~= workspaces_of_outputs(tree.nodes@.take(0)));
    while i < tree.nodes.len()
        invariant
            i <= tree.nodes@.len(),
            deref_all(out@) == workspaces_of_outputs(tree.nodes@.take(i as int)),
        decreases tree.nodes@.len() - i,
    {
        let output: &'a Node = &tree.nodes[i];
        let mut j: usize = 0;
        assert(deref_all(out@) =~= workspaces_of_outputs(tree.nodes@.take(i as int))
            + workspaces_in(output.nodes@.take(0)));
        while j < output.nodes.len()
            invariant
                i < tree.nodes@.len(),
                j <= output.nodes@.len(),
                *output == tree.nodes@[i as int],
                deref_all(out@) == workspaces_of_outputs(tree.nodes@.take(i as int))
                    + workspaces_in(output.nodes@.take(j as int)),
            decreases output.nodes@.len() - j,
        {
            let ghost prev = out@;
            let child: &'a Node = &output.nodes[j];
            let is_ws = match child.node_type {
                NodeType::Workspace => true,
                _ => false,
            };
            if is_ws {
                out.push(child);
                assert(deref_all(out@) =~= deref_all(prev).push(*child));
            }
            proof {
                assert(output.nodes@.take(j + 1).drop_last() =~= output.nodes@.take(j as int));
                assert(output.nodes@.take(j + 1).last() == output.nodes@[j as int]);
                assert(deref_all(out@) =~= workspaces_of_outputs(tree.nodes@.take(i as int))
                    + workspaces_in(output.nodes@.take(j + 1)));
            }
            j = j + 1;
        }
        proof {
            assert(output.nodes@.take(output.nodes@.len() as int) =~= output.nodes@);
            assert(tree.nodes@.take(i + 1).drop_last() =~= tree.nodes@.take(i as int));
            assert(tree.nodes@.take(i + 1).last() == tree.nodes@[i as int]);
        }
        i = i + 1;
    }
    proof {
        assert(tree.nodes@.take(tree.nodes@.len() as int) =~= tree.nodes@);
    }
    out
}

/// The window nodes of the subtree rooted at `n`, in pre-order: `n` itself
/// first when it is a window node, then the windows of each tiling child in
/// listed order. Floating children of inner nodes are not traversed; only a
/// workspace's own floating list is walked, separately.
pub open spec fn windows_of(n: Node) -> Seq<Node>
    decreases n,
{
    (if is_window_node(n) {
        seq![n]
    } else {
        Seq::empty()
    }) + windows_of_list(n.nodes@)
}

/// The window nodes of every subtree rooted in `s`, in listed order.
pub open spec fn windows_of_list(s: Seq<Node>) -> Seq<Node>
    decreases s,
{
    if s.len() == 0 {
        Seq::empty()
    } else {
        windows_of_list(s.drop_last()) + windows_of(s.last())
    }
}

/// The window nodes of one workspace: the pre-order windows of its tiling
/// children, then the pre-order windows of its floating children.
pub open spec fn windows_of_workspace(w: Node) -> Seq<Node> {
    windows_of_list(w.nodes@) + windows_of_list(w.floating_nodes@)
}

/// Pre-order collection over one subtree: the root first when it is a
/// window node, then each tiling child's subtree in listed order.
fn collect_window_nodes<'a>(n: &'a Node, out: &mut Vec<&'a Node>)
    ensures
        deref_all(final(out)@) == deref_all(old(out)@) + windows_of(*n),
    decreases *n,
{
    let ghost entry = out@;
    if n.window.is_some() || n.app_id.is_some() {
        out.push(n);
        assert(deref_all(out@) =~= deref_all(entry).push(*n));
    }
    let ghost after_root = out@;
    let mut i: usize = 0;
    assert(deref_all(out@) =~= deref_all(after_root) + windows_of_list(n.nodes@.take(0)));
    while i < n.nodes.len()
        invariant
            i <= n.nodes@.len(),
            deref_all(out@) == deref_all(after_root) + windows_of_list(n.nodes@.take(i as int)),
            deref_all(after_root) == deref_all(entry) + if is_window_node(*n) {
                seq![*n]
            } else {
                Seq::<Node>::empty()
            },
        decreases *n, n.nodes@.len() - i,
    {
        let ghost prev = out@;
        proof {
            assert(decreases_to!(*n => n.nodes));
            assert(decreases_to!(n.nodes => n.nodes@));
            assert(decreases_to!(n.nodes@ => n.nodes@[i as int]));
        }
        collect_window_nodes(&n.nodes[i], out);
        proof {
            assert(n.nodes@.take(i + 1).drop_last() =~= n.nodes@.take(i as int));
            assert(n.nodes@.take(i + 1).last() == n.nodes@[i as int]);
            assert(deref_all(out@) =~= deref_all(after_root)
                + windows_of_list(n.nodes@.take(i + 1)));
        }
        i = i + 1;
    }
    proof {
        assert(n.nodes@.take(n.nodes@.len() as int) =~= n.nodes@);
        assert(deref_all(out@) =~= deref_all(entry) + windows_of(*n));
    }
}

/// The display string of one candidate window node, or `None` when the
/// window is excluded or fails resolution. A node without a visibility flag
/// is a contract violation and yields `None` (the window is skipped, its
/// siblings unaffected). A visible, unfocused window is excluded when the
/// `"focused_only"` option is set; an invisible or focused one never is.
/// Otherwise the node resolves as the identity resolver says, a resolution
/// failure again skipping only this window.
pub open spec fn window_label(n: Node, c: Config) -> Option<Seq<char>> {
    match n.visible {
        None => None,
        Some(vis) => if spec_option(c, "focused_only"@) && vis && !n.focused {
            None
        } else {
            match raw_class(n) {
                Some(key) => Some(display_of(key, c)),
                None => None,
            }
        },
    }
}

/// The display strings of the windows in `windows` that are included and
/// resolve, in order.
pub open spec fn labels_of(windows: Seq<Node>, c: Config) -> Seq<Seq<char>>
    decreases windows.len(),
{
    if windows.len() == 0 {
        Seq::empty()
    } else {
        labels_of(windows.drop_last(), c) + match window_label(windows.last(), c) {
            Some(l) => seq![l],
            None => Seq::empty(),
        }
    }
}

/// Return every window node under the listed subtrees, in pre-order, each
/// descendant visited exactly once.
pub fn get_window_nodes<'a>(nodes: &'a Vec<Node>) -> (out: Vec<&'a Node>)
    ensures
        deref_all(out@) == windows_of_list(nodes@),
{
    let mut out: Vec<&'a Node> = Vec::new();
    let mut i: usize = 0;
    assert(deref_all(out@) =~= windows_of_list(nodes@.take(0)));
    while i < nodes.len()
        invariant
            i <= nodes@.len(),
            deref_all(out@) == windows_of_list(nodes@.take(i as int)),
        decreases nodes@.len() - i,
    {
        collect_window_nodes(&nodes[i], &mut out);
        proof {
            assert(nodes@.take(i + 1).drop_last() =~= nodes@.take(i as int));
            assert(nodes@.take(i + 1).last() == nodes@[i as int]);
        }
        i = i + 1;
    }
    proof {
        assert(nodes@.take(nodes@.len() as int) =~= nodes@);
    }
    out
}

/// Return the display strings of one workspace's windows: tiling windows in
/// pre-order, then floating windows in pre-order, filtered and resolved as
/// `window_label` says; a window that is excluded or fails resolution is
/// dropped without affecting its siblings.
pub fn get_classes(workspace: &Node, config: &Config) -> (r: Vec<String>)
    ensures
        views_of(r@) == labels_of(windows_of_workspace(*workspace), *config),
{
    let mut window_nodes = get_window_nodes(&workspace.nodes);
    let mut floating = get_window_nodes(&workspace.floating_nodes);
    window_nodes.append(&mut floating);
    proof {
        assert(deref_all(window_nodes@) =~= windows_of_workspace(*workspace));
    }
    let ghost windows = deref_all(window_nodes@);

    let focused_only = get_option(config, "focused_only");
    let mut out: Vec<String> = Vec::new();
    let mut i: usize = 0;
    assert(views_of(out@) =~= labels_of(windows.take(0), *config));
    while i < window_nodes.len()
        invariant
            i <= window_nodes@.len(),
            windows == deref_all(window_nodes@),
            focused_only == spec_option(*config, "focused_only"@),
            views_of(out@) == labels_of(windows.take(i as int), *config),
        decreases window_nodes@.len() - i,
    {
        let ghost prev = out@;
        let node: &Node = window_nodes[i];
        assert(*node == windows[i as int]);
        match node.visible {
            Some(vis) => {
                if !(focused_only && vis && !node.focused) {
                    match get_class(node, config) {
                        Ok(class) => {
                            out.push(class);
                            assert(views_of(out@) =~= views_of(prev).push(
                                window_label(windows[i as int], *config)->0,
                            ));
                        },
                        Err(_missing) => {
                            // the window is skipped; its siblings still count
                        },
                    }
                }
            },
            None => {
                // no usable visibility flag: a contract violation, the window
                // is skipped rather than guessed visible or invisible
            },
        }
        proof {
            assert(windows.take(i + 1).drop_last() =~= windows.take(i as int));
            assert(windows.take(i + 1).last() == windows[i as int]);
            assert(views_of(out@) =~= labels_of(windows.take(i + 1), *config));
        }
        i = i + 1;
    }
    proof {
        assert(windows.take(windows.len() as int) =~= windows);
    }
    out
}

} // verus!

//! The scene tree: the window manager's hierarchical snapshot of outputs,
//! workspaces, containers and windows at a point in time. The tree is
//! read-only input for one update cycle; nothing here mutates it.

use vstd::prelude::*;

verus! {

/// The tag that distinguishes the kinds of scene-tree nodes. Only
/// `Workspace` drives a decision in this library; the other tags are carried
/// so that a whole snapshot can be represented.
pub enum NodeType {
    Root,
    Output,
    Workspace,
    Container,
    FloatingContainer,
    Dockarea,
}

/// The window-properties record of a node; its class string may itself be
/// absent, which the identity resolver surfaces as a failure.
pub struct WindowProperties {
    pub class: Option<String>,
}

/// One node of the scene tree, holding exactly the attributes this library
/// reads: the optional name, the node-type tag, focus and visibility flags,
/// the optional application identifier, the optional window handle (whose
/// presence marks a real window), the optional window-properties record, and
/// the ordered child lists (tiling children and floating children).
pub struct Node {
    pub name: Option<String>,
    pub node_type: NodeType,
    pub focused: bool,
    pub visible: Option<bool>,
    pub app_id: Option<String>,
    pub window: Option<i64>,
    pub window_properties: Option<WindowProperties>,
    pub nodes: Vec<Node>,
    pub floating_nodes: Vec<Node>,
}

/// A node counts as a window when it carries a window handle or an
/// application identifier; a container with neither is traversed into but
/// never collected.
pub open spec fn is_window_node(n: Node) -> bool {
    n.window is Some || n.app_id is Some
}

} // verus!

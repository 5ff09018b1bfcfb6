use workspace_namer::config::{get_option, Config};
use workspace_namer::events::{
    handle_window_event, handle_workspace_event, WindowChange, WorkspaceChange,
};
use workspace_namer::node::{Node, NodeType, WindowProperties};
use workspace_namer::resolver::{get_class, LookupError};
use workspace_namer::update::{update_tree, workspace_command};
use workspace_namer::walker::{get_classes, get_window_nodes, get_workspaces};
use workspace_namer::compose::{compose_name, dedup_labels, join_labels};

fn empty_config() -> Config {
    Config { icons: vec![], aliases: vec![], general: vec![], options: vec![] }
}

fn bare_node(node_type: NodeType) -> Node {
    Node {
        name: None,
        node_type,
        focused: false,
        visible: None,
        app_id: None,
        window: None,
        window_properties: None,
        nodes: vec![],
        floating_nodes: vec![],
    }
}

fn window_node(app_id: &str) -> Node {
    let mut n = bare_node(NodeType::Container);
    n.visible = Some(true);
    n.app_id = Some(app_id.to_string());
    n
}

fn workspace_node(name: &str, children: Vec<Node>) -> Node {
    let mut n = bare_node(NodeType::Workspace);
    n.name = Some(name.to_string());
    n.nodes = children;
    n
}

fn tree_of(workspaces: Vec<Node>) -> Node {
    let mut output = bare_node(NodeType::Output);
    output.nodes = workspaces;
    let mut root = bare_node(NodeType::Root);
    root.nodes = vec![output];
    root
}

fn labels(strings: &[&str]) -> Vec<String> {
    strings.iter().map(|s| s.to_string()).collect()
}

#[test]
fn default_config_is_empty() {
    let c = Config::default();
    assert!(c.icons.is_empty());
    assert!(c.aliases.is_empty());
    assert!(c.general.is_empty());
    assert!(c.options.is_empty());
}

#[test]
fn missing_option_reads_false() {
    let c = empty_config();
    assert!(!get_option(&c, "no_names"));
    let mut c2 = empty_config();
    c2.options.push(("no_names".to_string(), true));
    assert!(get_option(&c2, "no_names"));
    assert!(!get_option(&c2, "focused_only"));
}

#[test]
fn icon_with_names_prepends_glyph() {
    let mut c = empty_config();
    c.icons.push(("Firefox".to_string(), 'F'));
    let n = window_node("Firefox");
    assert_eq!(get_class(&n, &c), Ok("F Firefox".to_string()));
}

#[test]
fn icon_without_names_stands_alone() {
    let mut c = empty_config();
    c.icons.push(("Firefox".to_string(), 'F'));
    c.options.push(("no_names".to_string(), true));
    let n = window_node("Firefox");
    assert_eq!(get_class(&n, &c), Ok("F".to_string()));
}

#[test]
fn default_icon_fills_in_for_missing_entry() {
    let mut c = empty_config();
    c.general.push(("default_icon".to_string(), "*".to_string()));
    let n = window_node("Firefox");
    assert_eq!(get_class(&n, &c), Ok("* Firefox".to_string()));
}

#[test]
fn no_icon_at_all_leaves_bare_label() {
    let c = empty_config();
    let n = window_node("Firefox");
    assert_eq!(get_class(&n, &c), Ok("Firefox".to_string()));
}

#[test]
fn no_names_without_icon_has_no_effect() {
    let mut c = empty_config();
    c.options.push(("no_names".to_string(), true));
    let n = window_node("Firefox");
    assert_eq!(get_class(&n, &c), Ok("Firefox".to_string()));
}

#[test]
fn alias_replaces_label_but_not_lookup_key() {
    let mut c = empty_config();
    c.aliases.push(("Firefox".to_string(), "ff".to_string()));
    c.icons.push(("Firefox".to_string(), 'F'));
    let n = window_node("Firefox");
    assert_eq!(get_class(&n, &c), Ok("F ff".to_string()));
}

#[test]
fn window_properties_class_backs_up_app_id() {
    let c = empty_config();
    let mut n = bare_node(NodeType::Container);
    n.visible = Some(true);
    n.window = Some(77);
    n.window_properties = Some(WindowProperties { class: Some("Gimp".to_string()) });
    assert_eq!(get_class(&n, &c), Ok("Gimp".to_string()));
}

#[test]
fn node_without_identity_fails_resolution() {
    let c = empty_config();
    let n = bare_node(NodeType::Container);
    assert_eq!(get_class(&n, &c), Err(LookupError::MissingInformation));
}

#[test]
fn window_properties_without_class_fails_resolution() {
    let c = empty_config();
    let mut n = bare_node(NodeType::Container);
    n.window = Some(3);
    n.window_properties = Some(WindowProperties { class: None });
    assert_eq!(get_class(&n, &c), Err(LookupError::MissingInformation));
}

#[test]
fn workspaces_come_in_output_order() {
    let ws_a = workspace_node("1", vec![]);
    let ws_b = workspace_node("2", vec![]);
    let mut out1 = bare_node(NodeType::Output);
    out1.nodes = vec![ws_a, bare_node(NodeType::Dockarea)];
    let mut out2 = bare_node(NodeType::Output);
    out2.nodes = vec![ws_b];
    let mut root = bare_node(NodeType::Root);
    root.nodes = vec![out1, out2];
    let found = get_workspaces(&root);
    let names: Vec<&str> =
        found.iter().map(|w| w.name.as_ref().unwrap().as_str()).collect();
    assert_eq!(names, vec!["1", "2"]);
}

#[test]
fn window_collection_is_preorder_and_visits_containers() {
    let mut container = bare_node(NodeType::Container);
    container.nodes = vec![window_node("a"), window_node("b")];
    let mut carrier = window_node("c");
    carrier.nodes = vec![window_node("d")];
    let top = vec![container, carrier];
    let found = get_window_nodes(&top);
    let ids: Vec<&str> =
        found.iter().map(|n| n.app_id.as_ref().unwrap().as_str()).collect();
    assert_eq!(ids, vec!["a", "b", "c", "d"]);
}

#[test]
fn floating_windows_come_after_tiling_windows() {
    let mut ws = workspace_node("1", vec![window_node("tiled")]);
    ws.floating_nodes = vec![window_node("floating")];
    let c = empty_config();
    assert_eq!(get_classes(&ws, &c), labels(&["tiled", "floating"]));
}

#[test]
fn focused_only_excludes_visible_unfocused() {
    let mut c = empty_config();
    c.options.push(("focused_only".to_string(), true));
    let mut shown = window_node("shown");
    shown.visible = Some(true);
    shown.focused = false;
    let ws = workspace_node("1", vec![shown]);
    assert_eq!(get_classes(&ws, &c), labels(&[]));
}

#[test]
fn focused_only_keeps_invisible_unfocused() {
    let mut c = empty_config();
    c.options.push(("focused_only".to_string(), true));
    let mut hidden = window_node("hidden");
    hidden.visible = Some(false);
    hidden.focused = false;
    let ws = workspace_node("1", vec![hidden]);
    assert_eq!(get_classes(&ws, &c), labels(&["hidden"]));
}

#[test]
fn focused_only_keeps_focused_whatever_visibility() {
    let mut c = empty_config();
    c.options.push(("focused_only".to_string(), true));
    let mut seen = window_node("seen");
    seen.visible = Some(true);
    seen.focused = true;
    let mut unseen = window_node("unseen");
    unseen.visible = Some(false);
    unseen.focused = true;
    let ws = workspace_node("1", vec![seen, unseen]);
    assert_eq!(get_classes(&ws, &c), labels(&["seen", "unseen"]));
}

#[test]
fn missing_visibility_flag_skips_only_that_window() {
    let c = empty_config();
    let mut broken = window_node("broken");
    broken.visible = None;
    let ws = workspace_node("1", vec![broken, window_node("fine")]);
    assert_eq!(get_classes(&ws, &c), labels(&["fine"]));
}

#[test]
fn unresolvable_window_skips_only_that_window() {
    let c = empty_config();
    let mut anonymous = bare_node(NodeType::Container);
    anonymous.visible = Some(true);
    anonymous.window = Some(9);
    let ws = workspace_node("1", vec![window_node("left"), anonymous, window_node("right")]);
    assert_eq!(get_classes(&ws, &c), labels(&["left", "right"]));
}

#[test]
fn dedup_keeps_first_occurrences_in_order() {
    let deduped = dedup_labels(&labels(&["A", "B", "A"]));
    assert_eq!(deduped, labels(&["A", "B"]));
}

#[test]
fn join_uses_separator_between_elements() {
    assert_eq!(join_labels(&labels(&["A", "B"]), " | "), "A | B".to_string());
    assert_eq!(join_labels(&labels(&["A"]), " | "), "A".to_string());
    assert_eq!(join_labels(&labels(&[]), " | "), String::new());
}

#[test]
fn composed_suffix_deduplicates_when_option_set() {
    let mut c = empty_config();
    c.options.push(("remove_duplicates".to_string(), true));
    assert_eq!(compose_name("1", &labels(&["A", "B", "A"]), &c), "1 A | B".to_string());
}

#[test]
fn composed_suffix_keeps_duplicates_by_default() {
    let c = empty_config();
    assert_eq!(compose_name("1", &labels(&["A", "B", "A"]), &c), "1 A | B | A".to_string());
}

#[test]
fn compose_replaces_everything_after_index_token() {
    let c = empty_config();
    assert_eq!(compose_name("3 AA | BB", &labels(&["CC"]), &c), "3 CC".to_string());
}

#[test]
fn compose_with_no_labels_keeps_bare_token() {
    let c = empty_config();
    assert_eq!(compose_name("3 old stuff", &labels(&[]), &c), "3".to_string());
}

#[test]
fn compose_uses_configured_separator() {
    let mut c = empty_config();
    c.general.push(("separator".to_string(), "-".to_string()));
    assert_eq!(compose_name("1", &labels(&["A", "B"]), &c), "1 A-B".to_string());
}

#[test]
fn matching_name_issues_no_rename() {
    let c = empty_config();
    let ws = workspace_node("3 AA | BB", vec![window_node("AA"), window_node("BB")]);
    assert_eq!(compose_name("3 AA | BB", &get_classes(&ws, &c), &c), "3 AA | BB".to_string());
    assert_eq!(workspace_command(&ws, &c), Ok(None));
}

#[test]
fn changed_name_issues_quoted_rename() {
    let c = empty_config();
    let ws = workspace_node("2", vec![window_node("firefox")]);
    assert_eq!(
        workspace_command(&ws, &c),
        Ok(Some("rename workspace \"2\" to \"2 firefox\"".to_string()))
    );
}

#[test]
fn nameless_workspace_fails_and_spares_the_rest() {
    let c = empty_config();
    let mut nameless = workspace_node("x", vec![window_node("a")]);
    nameless.name = None;
    assert_eq!(workspace_command(&nameless, &c), Err(LookupError::WorkspaceName));

    let named = workspace_node("2", vec![window_node("firefox")]);
    let tree = tree_of(vec![nameless, named]);
    assert_eq!(
        update_tree(&tree, &c),
        vec!["rename workspace \"2\" to \"2 firefox\"".to_string()]
    );
}

#[test]
fn update_renames_each_differing_workspace() {
    let c = empty_config();
    let tree = tree_of(vec![
        workspace_node("1 a", vec![window_node("a")]),
        workspace_node("2", vec![window_node("b")]),
    ]);
    assert_eq!(update_tree(&tree, &c), vec!["rename workspace \"2\" to \"2 b\"".to_string()]);
}

#[test]
fn second_update_of_unchanged_tree_is_quiet() {
    let c = empty_config();
    let tree = tree_of(vec![workspace_node("2", vec![window_node("firefox")])]);
    let first = update_tree(&tree, &c);
    assert_eq!(first, vec!["rename workspace \"2\" to \"2 firefox\"".to_string()]);

    // the rename applied: the workspace now carries the computed name
    let renamed = tree_of(vec![workspace_node("2 firefox", vec![window_node("firefox")])]);
    let second = update_tree(&renamed, &c);
    assert!(second.is_empty());
}

#[test]
fn bare_token_with_no_windows_needs_no_rename() {
    let c = empty_config();
    let ws = workspace_node("2", vec![]);
    assert_eq!(workspace_command(&ws, &c), Ok(None));
}

#[test]
fn first_matching_config_entry_wins() {
    let mut c = empty_config();
    c.aliases.push(("Firefox".to_string(), "first".to_string()));
    c.aliases.push(("Firefox".to_string(), "second".to_string()));
    let n = window_node("Firefox");
    assert_eq!(get_class(&n, &c), Ok("first".to_string()));
}

#[test]
fn window_events_trigger_on_four_kinds() {
    assert!(handle_window_event(&WindowChange::New));
    assert!(handle_window_event(&WindowChange::Close));
    assert!(handle_window_event(&WindowChange::Move));
    assert!(handle_window_event(&WindowChange::Focus));
    assert!(!handle_window_event(&WindowChange::Title));
    assert!(!handle_window_event(&WindowChange::FullscreenMode));
    assert!(!handle_window_event(&WindowChange::Floating));
    assert!(!handle_window_event(&WindowChange::Urgent));
    assert!(!handle_window_event(&WindowChange::Mark));
}

#[test]
fn workspace_events_trigger_on_two_kinds() {
    assert!(handle_workspace_event(&WorkspaceChange::Empty));
    assert!(handle_workspace_event(&WorkspaceChange::Focus));
    assert!(!handle_workspace_event(&WorkspaceChange::Init));
    assert!(!handle_workspace_event(&WorkspaceChange::Move));
    assert!(!handle_workspace_event(&WorkspaceChange::Rename));
    assert!(!handle_workspace_event(&WorkspaceChange::Urgent));
    assert!(!handle_workspace_event(&WorkspaceChange::Reload));
}

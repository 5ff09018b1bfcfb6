//! The update orchestrator: for each workspace of a snapshot, resolve its
//! windows, compose its new name, and emit a rename command exactly when the
//! computed name differs from the current one. The commands are returned for
//! the caller to send; a workspace without a name is skipped and the other
//! workspaces still update.

use vstd::prelude::*;
use vstd::string::StringExecFns;
use crate::config::Config;
use crate::node::Node;
use crate::resolver::LookupError;
use crate::walker::{
    workspaces_of, windows_of_workspace, labels_of, get_workspaces, get_classes, deref_all,
};
use crate::compose::{compose, views_of, compose_name, lemma_compose_idempotent};

verus! {

/// The rename command for one workspace, naming it by its current full name
/// and asking for the computed full name.
pub open spec fn format_cmd(current: Seq<char>, next: Seq<char>) -> Seq<char> {
    "rename workspace \""@ + current + "\" to \""@ + next + "\""@
}

/// The name this update computes for workspace `w`: its current name's index
/// token followed by the suffix composed from its windows' display strings.
pub open spec fn new_name_of(w: Node, c: Config) -> Seq<char>
    recommends
        w.name is Some,
{
    compose(w.name->0@, labels_of(windows_of_workspace(w), c), c)
}

/// The command one workspace contributes: none when the workspace has no
/// name (that workspace alone is skipped), none when the computed name
/// equals the current one, and the rename command otherwise.
pub open spec fn workspace_cmd(w: Node, c: Config) -> Option<Seq<char>> {
    match w.name {
        None => None,
        Some(nm) => if new_name_of(w, c) == nm@ {
            None
        } else {
            Some(format_cmd(nm@, new_name_of(w, c)))
        },
    }
}

/// The commands of the listed workspaces, in order.
pub open spec fn commands_of_list(ws: Seq<Node>, c: Config) -> Seq<Seq<char>>
    decreases ws.len(),
{
    if ws.len() == 0 {
        Seq::empty()
    } else {
        commands_of_list(ws.drop_last(), c) + match workspace_cmd(ws.last(), c) {
            Some(cmd) => seq![cmd],
            None => Seq::empty(),
        }
    }
}

/// Every rename command one full update issues for the snapshot `tree`.
pub open spec fn commands_of(tree: Node, c: Config) -> Seq<Seq<char>> {
    commands_of_list(workspaces_of(tree), c)
}

/// Law: a second update against an unchanged tree issues no rename. A
/// workspace whose current name is the name the previous update computed,
/// with its windows resolving to the same display strings under the same
/// configuration, contributes no command.
pub proof fn lemma_second_update_quiet(w1: Node, w2: Node, c: Config)
    requires
        w1.name is Some,
        w2.name is Some,
        w2.name->0@ == new_name_of(w1, c),
        labels_of(windows_of_workspace(w2), c) == labels_of(windows_of_workspace(w1), c),
    ensures
        workspace_cmd(w2, c) is None,
{
    lemma_compose_idempotent(w1.name->0@, labels_of(windows_of_workspace(w1), c), c);
}

/// An update over workspaces none of which contributes a command issues
/// none.
proof fn lemma_quiet_list(ws: Seq<Node>, c: Config)
    requires
        forall|i: int| 0 <= i < ws.len() ==> workspace_cmd(#[trigger] ws[i], c) is None,
    ensures
        commands_of_list(ws, c) == Seq::<Seq<char>>::empty(),
    decreases ws.len(),
{
    if ws.len() > 0 {
        assert(forall|i: int|
            0 <= i < ws.drop_last().len() ==> workspace_cmd(
                #[trigger] ws.drop_last()[i],
                c,
            ) is None) by {
            assert(forall|i: int| 0 <= i < ws.len() - 1 ==> ws.drop_last()[i] == ws[i]);
        }
        lemma_quiet_list(ws.drop_last(), c);
        assert(workspace_cmd(ws.last(), c) is None);
        assert(commands_of_list(ws, c) =~= Seq::<Seq<char>>::empty());
    } else {
        assert(commands_of_list(ws, c) =~= Seq::<Seq<char>>::empty());
    }
}

/// Law: running the update twice against an unchanged tree issues no rename
/// on the second run. When every workspace of the first snapshot had a name,
/// and the second snapshot shows each workspace carrying the name the first
/// update computed for it with its windows resolving to the same display
/// strings, the second update issues no command at all.
pub proof fn lemma_second_update_tree_quiet(t1: Node, t2: Node, c: Config)
    requires
        workspaces_of(t2).len() == workspaces_of(t1).len(),
        forall|i: int|
            0 <= i < workspaces_of(t1).len() ==> (#[trigger] workspaces_of(t1)[i]).name is Some,
        forall|i: int|
            0 <= i < workspaces_of(t2).len() ==> {
                &&& (#[trigger] workspaces_of(t2)[i]).name is Some
                &&& workspaces_of(t2)[i].name->0@ == new_name_of(workspaces_of(t1)[i], c)
                &&& labels_of(windows_of_workspace(workspaces_of(t2)[i]), c) == labels_of(
                    windows_of_workspace(workspaces_of(t1)[i]),
                    c,
                )
            },
    ensures
        commands_of(t2, c) == Seq::<Seq<char>>::empty(),
{
    assert forall|i: int|
        0 <= i < workspaces_of(t2).len() implies workspace_cmd(
        #[trigger] workspaces_of(t2)[i],
        c,
    ) is None by {
        lemma_second_update_quiet(workspaces_of(t1)[i], workspaces_of(t2)[i], c);
    }
    lemma_quiet_list(workspaces_of(t2), c);
}

/// Compute one workspace's rename command: `Err(WorkspaceName)` when the
/// workspace has no name, `Ok(None)` when the computed name is already the
/// current one, and `Ok(Some(command))` otherwise.
pub fn workspace_command(workspace: &Node, config: &Config) -> (r: Result<
    Option<String>,
    LookupError,
>)
    ensures
        workspace.name is None ==> (r matches Err(e) && e is WorkspaceName),
        workspace.name is Some ==> (r matches Ok(cmd) && (match workspace_cmd(
            *workspace,
            *config,
        ) {
            Some(c0) => cmd matches Some(s) && s@ == c0,
            None => cmd is None,
        })),
{
    let current: &String = match &workspace.name {
        Some(nm) => nm,
        None => {
            return Err(LookupError::WorkspaceName);
        },
    };
    let classes = get_classes(workspace, config);
    let next = compose_name(current.as_str(), &classes, config);
    if next == *current {
        Ok(None)
    } else {
        let mut cmd = String::new();
        cmd.append("rename workspace \"");
        cmd.append(current.as_str());
        cmd.append("\" to \"");
        cmd.append(next.as_str());
        cmd.append("\"");
        assert(cmd@ =~= format_cmd(current@, next@));
        Ok(Some(cmd))
    }
}

/// Run one full update over the snapshot `tree`: for each workspace, in
/// order, compute its new name and collect a rename command exactly when
/// that name differs from the current one. A workspace that fails (no name)
/// is skipped; the remaining workspaces still update.
pub fn update_tree(tree: &Node, config: &Config) -> (cmds: Vec<String>)
    ensures
        views_of(cmds@) == commands_of(*tree, *config),
{
    let wss = get_workspaces(tree);
    let ghost ws = deref_all(wss@);
    let mut cmds: Vec<String> = Vec::new();
    let mut i: usize = 0;
    assert(views_of(cmds@) =~= commands_of_list(ws.take(0), *config));
    while i < wss.len()
        invariant
            i <= wss@.len(),
            ws == deref_all(wss@),
            views_of(cmds@) == commands_of_list(ws.take(i as int), *config),
        decreases wss@.len() - i,
    {
        let ghost prev = cmds@;
        let w: &Node = wss[i];
        assert(*w == ws[i as int]);
        match workspace_command(w, config) {
            Ok(Some(cmd)) => {
                cmds.push(cmd);
                assert(views_of(cmds@) =~= views_of(prev).push(
                    workspace_cmd(ws[i as int], *config)->0,
                ));
            },
            Ok(None) => {
                // the computed name is already the current one
            },
            Err(_nameless) => {
                // a workspace without a name: skipped, the rest still update
            },
        }
        proof {
            assert(ws.take(i + 1).drop_last() =~= ws.take(i as int));
            assert(ws.take(i + 1).last() == ws[i as int]);
            assert(views_of(cmds@) =~= commands_of_list(ws.take(i + 1), *config));
        }
        i = i + 1;
    }
    proof {
        assert(ws.take(ws.len() as int) =~= ws);
    }
    cmds
}

} // verus!

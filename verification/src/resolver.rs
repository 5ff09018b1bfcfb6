//! The identity resolver: given one window node and the configuration,
//! produce the window's display string (icon and/or alias with fallback
//! rules), or a typed failure when the node exposes neither an application
//! identifier nor a window-properties class.

use vstd::prelude::*;
use vstd::string::StringExecFns;
use crate::config::{Config, assoc, spec_option, assoc_get, get_option};
use crate::node::Node;

verus! {

/// The typed failures of one update cycle. `MissingInformation` marks a
/// window node that exposes neither an application identifier nor a usable
/// window-properties class, or whose visibility flag is absent; the window
/// is dropped and its siblings are unaffected. `WorkspaceName` marks a
/// workspace node without a name; that one workspace is skipped and the
/// others still update.
#[derive(Clone, Copy, Debug, PartialEq, Eq, Structural)]
pub enum LookupError {
    MissingInformation,
    WorkspaceName,
}

/// Relies on std's `String::push`: it appends the given character to the
/// end of the string.
pub assume_specification[ String::push ](s: &mut String, ch: char)
    ensures
        final(s)@ == old(s)@.push(ch),
;

/// The raw class key of a window node: its application identifier when
/// present, otherwise the class inside its window-properties record. `None`
/// when neither is available (a window-properties record without a class
/// string is such a failure too).
pub open spec fn raw_class(n: Node) -> Option<Seq<char>> {
    match n.app_id {
        Some(id) => Some(id@),
        None => match n.window_properties {
            Some(props) => match props.class {
                Some(c) => Some(c@),
                None => None,
            },
            None => None,
        },
    }
}

/// The icon for a class key: the icon-table entry when present, otherwise
/// the general `"default_icon"` setting, otherwise no icon at all.
pub open spec fn icon_of(key: Seq<char>, c: Config) -> Option<Seq<char>> {
    match assoc(c.icons@, key) {
        Some(i) => Some(seq![i]),
        None => match assoc(c.general@, "default_icon"@) {
            Some(d) => Some(d@),
            None => None,
        },
    }
}

/// The display string for a class key: the alias-table entry (or the key
/// itself) as label, decorated by the icon. With an icon and `"no_names"`
/// set, the icon alone; with an icon and `"no_names"` unset, the icon, one
/// space, and the label; with no icon, the label alone (the `"no_names"`
/// option then has no effect).
pub open spec fn display_of(key: Seq<char>, c: Config) -> Seq<char> {
    let label = match assoc(c.aliases@, key) {
        Some(a) => a@,
        None => key,
    };
    match icon_of(key, c) {
        Some(icon) => if spec_option(c, "no_names"@) {
            icon
        } else {
            icon + seq![' '] + label
        },
        None => label,
    }
}

/// Resolve one window node to its display string, or fail with
/// `MissingInformation` when no raw class key can be determined.
pub fn get_class(node: &Node, config: &Config) -> (r: Result<String, LookupError>)
    ensures
        match raw_class(*node) {
            Some(key) => r matches Ok(s) && s@ == display_of(key, *config),
            None => r matches Err(e) && e is MissingInformation,
        },
{
    let key: String = match &node.app_id {
        Some(id) => id.clone(),
        None => match &node.window_properties {
            Some(props) => match &props.class {
                Some(c) => c.clone(),
                None => {
                    return Err(LookupError::MissingInformation);
                },
            },
            None => {
                return Err(LookupError::MissingInformation);
            },
        },
    };
    let label: &String = match assoc_get(&config.aliases, key.as_str()) {
        Some(a) => a,
        None => &key,
    };
    let no_names = get_option(config, "no_names");
    let display: String = match assoc_get(&config.icons, key.as_str()) {
        Some(icon) => {
            let mut s = String::new();
            s.push(*icon);
            if no_names {
                assert(s@ =~= seq![*icon]);
                s
            } else {
                s.push(' ');
                s.append(label.as_str());
                assert(s@ =~= seq![*icon] + seq![' '] + label@);
                s
            }
        },
        None => match assoc_get(&config.general, "default_icon") {
            Some(default_icon) => {
                if no_names {
                    default_icon.clone()
                } else {
                    let mut s = default_icon.clone();
                    s.push(' ');
                    s.append(label.as_str());
                    assert(s@ =~= default_icon@ + seq![' '] + label@);
                    s
                }
            },
            None => label.clone(),
        },
    };
    Ok(display)
}

} // verus!

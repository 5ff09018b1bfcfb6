//! Configuration tables: icons, aliases, general settings and boolean options.
//!
//! Each table is an association list from a class-name key to a value. A
//! lookup returns the value of the first entry whose key matches; a missing
//! key is a normal outcome and falls through to the caller's default.

use vstd::prelude::*;

verus! {

/// The four configuration tables, immutable for the duration of one update:
/// icon glyph by class, display-name alias by class, general string settings
/// (notably `"separator"` and `"default_icon"`), and boolean options
/// (notably `"no_names"`, `"focused_only"` and `"remove_duplicates"`).
pub struct Config {
    pub icons: Vec<(String, char)>,
    pub aliases: Vec<(String, String)>,
    pub general: Vec<(String, String)>,
    pub options: Vec<(String, bool)>,
}

impl Default for Config {
    /// The empty configuration: no icons, no aliases, no general settings,
    /// and every option absent (hence read as false).
    fn default() -> (c: Config)
        ensures
            c.icons@ =~= Seq::<(String, char)>::empty(),
            c.aliases@ =~= Seq::<(String, String)>::empty(),
            c.general@ =~= Seq::<(String, String)>::empty(),
            c.options@ =~= Seq::<(String, bool)>::empty(),
    {
        Config { icons: Vec::new(), aliases: Vec::new(), general: Vec::new(), options: Vec::new() }
    }
}

/// The value of the first entry of `entries` whose key reads as `key`,
/// or `None` when no entry matches.
pub open spec fn assoc<V>(entries: Seq<(String, V)>, key: Seq<char>) -> Option<V>
    decreases entries.len(),
{
    if entries.len() == 0 {
        None
    } else if entries[0].0@ == key {
        Some(entries[0].1)
    } else {
        assoc(entries.drop_first(), key)
    }
}

/// A lookup skips every leading entry whose key does not match.
proof fn lemma_assoc_skip<V>(entries: Seq<(String, V)>, key: Seq<char>, i: int)
    requires
        0 <= i <= entries.len(),
        forall|j: int| 0 <= j < i ==> entries[j].0@ != key,
    ensures
        assoc(entries, key) == assoc(entries.skip(i), key),
    decreases i,
{
    if i > 0 {
        assert(entries[0].0@ != key);
        assert(forall|j: int|
            0 <= j < i - 1 ==> #[trigger] entries.drop_first()[j].0@ != key) by {
            assert(forall|j: int| 0 <= j < i - 1 ==> entries.drop_first()[j] == entries[j + 1]);
        }
        lemma_assoc_skip(entries.drop_first(), key, i - 1);
        assert(entries.drop_first().skip(i - 1) =~= entries.skip(i));
    } else {
        assert(entries.skip(0) =~= entries);
    }
}

/// First-match lookup in an association list.
pub fn assoc_get<'a, V>(entries: &'a Vec<(String, V)>, key: &str) -> (r: Option<&'a V>)
    ensures
        match assoc(entries@, key@) {
            Some(v) => r matches Some(rv) && *rv == v,
            None => r is None,
        },
{
    let owned_key: String = key.to_owned();
    let mut i: usize = 0;
    while i < entries.len()
        invariant
            i <= entries@.len(),
            owned_key@ == key@,
            forall|j: int| 0 <= j < i ==> entries@[j].0@ != key@,
        decreases entries@.len() - i,
    {
        if entries[i].0 == owned_key {
            proof {
                lemma_assoc_skip(entries@, key@, i as int);
                assert(entries@.skip(i as int)[0] == entries@[i as int]);
            }
            return Some(&entries[i].1);
        }
        i = i + 1;
    }
    proof {
        lemma_assoc_skip(entries@, key@, i as int);
        assert(entries@.skip(i as int).len() == 0);
    }
    None
}

/// The boolean option named `key`, read as false when the option is absent.
pub open spec fn spec_option(c: Config, key: Seq<char>) -> bool {
    match assoc(c.options@, key) {
        Some(b) => b,
        None => false,
    }
}

/// Read a boolean option, defaulting a missing entry to false.
pub fn get_option(config: &Config, key: &str) -> (r: bool)
    ensures
        r == spec_option(*config, key@),
{
    match assoc_get(&config.options, key) {
        Some(v) => *v,
        None => false,
    }
}

} // verus!

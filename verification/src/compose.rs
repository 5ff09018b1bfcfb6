//! The label composer: apply the deduplication policy to a workspace's
//! resolved display strings, join them with the configured separator, and
//! compute the new workspace name by keeping the leading index token of the
//! current name and replacing everything after it.

use vstd::prelude::*;
use vstd::string::{StringExecFns, StrSliceExecFns};
use crate::config::{Config, assoc, assoc_get, spec_option, get_option};

verus! {

/// The character sequences that a sequence of strings reads as.
pub open spec fn views_of(s: Seq<String>) -> Seq<Seq<char>> {
    s.map_values(|x: String| x@)
}

/// The configured separator: the general `"separator"` setting, or `" | "`
/// when unset.
pub open spec fn sep_of(c: Config) -> Seq<char> {
    match assoc(c.general@, "separator"@) {
        Some(s) => s@,
        None => " | "@,
    }
}

/// `items` collapsed to the first occurrence of each distinct element,
/// first-seen order preserved.
pub open spec fn dedup_first(items: Seq<Seq<char>>) -> Seq<Seq<char>>
    decreases items.len(),
{
    if items.len() == 0 {
        Seq::empty()
    } else {
        dedup_first(items.drop_last()) + if items.drop_last().contains(items.last()) {
            Seq::empty()
        } else {
            seq![items.last()]
        }
    }
}

/// Deduplication keeps exactly the elements that were present.
pub proof fn lemma_dedup_first_contains(items: Seq<Seq<char>>, x: Seq<char>)
    ensures
        dedup_first(items).contains(x) <==> items.contains(x),
    decreases items.len(),
{
    if items.len() > 0 {
        let head = items.drop_last();
        let tail = if head.contains(items.last()) {
            Seq::<Seq<char>>::empty()
        } else {
            seq![items.last()]
        };
        lemma_dedup_first_contains(head, x);
        assert(dedup_first(items) == dedup_first(head) + tail);
        if dedup_first(head).contains(x) {
            let i = choose|i: int| 0 <= i < dedup_first(head).len() && dedup_first(head)[i] == x;
            assert((dedup_first(head) + tail)[i] == x);
        }
        if tail.contains(x) {
            assert((dedup_first(head) + tail)[dedup_first(head).len() as int] == x);
        }
        if dedup_first(items).contains(x) {
            let i = choose|i: int|
                0 <= i < dedup_first(items).len() && dedup_first(items)[i] == x;
            if i < dedup_first(head).len() {
                assert(dedup_first(head)[i] == x);
            } else {
                assert(tail[i - dedup_first(head).len()] == x);
            }
        }
        if items.contains(x) {
            let i = choose|i: int| 0 <= i < items.len() && items[i] == x;
            if i < items.len() - 1 {
                assert(head[i] == x);
            } else {
                assert(items.last() == x);
                if head.contains(items.last()) {
                    assert(head.contains(x));
                }
            }
        }
    }
}

/// `items` joined with `sep` between consecutive elements.
pub open spec fn join(items: Seq<Seq<char>>, sep: Seq<char>) -> Seq<char>
    decreases items.len(),
{
    if items.len() == 0 {
        Seq::empty()
    } else if items.len() == 1 {
        items[0]
    } else {
        join(items.drop_last(), sep) + sep + items.last()
    }
}

/// The label suffix: the joined display strings with one leading space, or
/// the empty sequence when the joined string is empty.
pub open spec fn suffix_of(items: Seq<Seq<char>>, sep: Seq<char>) -> Seq<char> {
    if join(items, sep).len() == 0 {
        Seq::empty()
    } else {
        seq![' '] + join(items, sep)
    }
}

/// The index prefix of a workspace name: its characters before the first
/// space, the whole name when it holds no space.
pub open spec fn first_token(s: Seq<char>) -> Seq<char>
    decreases s.len(),
{
    if s.len() == 0 {
        s
    } else if s[0] == ' ' {
        Seq::empty()
    } else {
        seq![s[0]] + first_token(s.drop_first())
    }
}

/// The name computed for a workspace: the leading index token of its current
/// name, followed by the suffix built from the display strings (deduplicated
/// first when the `"remove_duplicates"` option is set).
pub open spec fn compose(current: Seq<char>, labels: Seq<Seq<char>>, c: Config) -> Seq<char> {
    let items = if spec_option(c, "remove_duplicates"@) {
        dedup_first(labels)
    } else {
        labels
    };
    first_token(current) + suffix_of(items, sep_of(c))
}

/// Whether `v` holds a string reading as `s`.
fn contains_string(v: &Vec<String>, s: &String) -> (r: bool)
    ensures
        r == views_of(v@).contains(s@),
{
    let mut i: usize = 0;
    while i < v.len()
        invariant
            i <= v@.len(),
            forall|j: int| 0 <= j < i ==> v@[j]@ != s@,
        decreases v@.len() - i,
    {
        if v[i] == *s {
            assert(views_of(v@)[i as int] == s@);
            return true;
        }
        i = i + 1;
    }
    assert(forall|j: int| 0 <= j < views_of(v@).len() ==> views_of(v@)[j] != s@);
    false
}

/// Collapse `labels` to the first occurrence of each distinct string,
/// preserving first-seen order.
pub fn dedup_labels(labels: &Vec<String>) -> (r: Vec<String>)
    ensures
        views_of(r@) == dedup_first(views_of(labels@)),
{
    let mut out: Vec<String> = Vec::new();
    let mut i: usize = 0;
    assert(views_of(out@) =~= dedup_first(views_of(labels@).take(0)));
    while i < labels.len()
        invariant
            i <= labels@.len(),
            views_of(out@) == dedup_first(views_of(labels@).take(i as int)),
        decreases labels@.len() - i,
    {
        let ghost prev = out@;
        let ghost seen = views_of(labels@).take(i as int);
        proof {
            lemma_dedup_first_contains(seen, labels@[i as int]@);
        }
        if !contains_string(&out, &labels[i]) {
            out.push(labels[i].clone());
            assert(views_of(out@) =~= views_of(prev).push(labels@[i as int]@));
        }
        proof {
            assert(views_of(labels@).take(i + 1).drop_last() =~= seen);
            assert(views_of(labels@).take(i + 1).last() == labels@[i as int]@);
            assert(views_of(out@) =~= dedup_first(views_of(labels@).take(i + 1)));
        }
        i = i + 1;
    }
    proof {
        assert(views_of(labels@).take(labels@.len() as int) =~= views_of(labels@));
    }
    out
}

/// Join `labels` with `separator` between consecutive elements.
pub fn join_labels(labels: &Vec<String>, separator: &str) -> (r: String)
    ensures
        r@ == join(views_of(labels@), separator@),
{
    let mut s = String::new();
    let mut i: usize = 0;
    assert(s@ =~= join(views_of(labels@).take(0), separator@));
    while i < labels.len()
        invariant
            i <= labels@.len(),
            s@ == join(views_of(labels@).take(i as int), separator@),
        decreases labels@.len() - i,
    {
        if i > 0 {
            s.append(separator);
        }
        s.append(labels[i].as_str());
        proof {
            assert(views_of(labels@).take(i + 1).drop_last() =~= views_of(labels@).take(i as int));
            assert(views_of(labels@).take(i + 1).last() == labels@[i as int]@);
            if i == 0 {
                assert(s@ =~= views_of(labels@).take(1)[0]);
            }
            assert(s@ =~= join(views_of(labels@).take(i + 1), separator@));
        }
        i = i + 1;
    }
    proof {
        assert(views_of(labels@).take(labels@.len() as int) =~= views_of(labels@));
    }
    s
}

/// A scan that stopped at `i` on a space (or at the end) has found the
/// index prefix.
proof fn lemma_first_token_prefix(s: Seq<char>, i: int)
    requires
        0 <= i <= s.len(),
        forall|j: int| 0 <= j < i ==> s[j] != ' ',
        i == s.len() || s[i] == ' ',
    ensures
        first_token(s) == s.subrange(0, i),
    decreases i,
{
    if i == 0 {
        if s.len() == 0 {
            assert(s.subrange(0, 0) =~= s);
        } else {
            assert(s[0] == ' ');
            assert(s.subrange(0, 0) =~= Seq::<char>::empty());
        }
    } else {
        assert(s[0] != ' ');
        let rest = s.drop_first();
        assert(forall|j: int| 0 <= j < i - 1 ==> #[trigger] rest[j] != ' ') by {
            assert(forall|j: int| 0 <= j < i - 1 ==> rest[j] == s[j + 1]);
        }
        lemma_first_token_prefix(rest, i - 1);
        assert(seq![s[0]] + rest.subrange(0, i - 1) =~= s.subrange(0, i));
    }
}

/// The index prefix holds no space.
proof fn lemma_first_token_no_space(s: Seq<char>)
    ensures
        forall|j: int| 0 <= j < first_token(s).len() ==> first_token(s)[j] != ' ',
    decreases s.len(),
{
    if s.len() == 0 || s[0] == ' ' {
    } else {
        lemma_first_token_no_space(s.drop_first());
        assert(forall|j: int| 0 <= j < first_token(s).len() ==> first_token(s)[j] != ' ') by {
            assert(first_token(s) == seq![s[0]] + first_token(s.drop_first()));
            assert(forall|j: int|
                1 <= j < first_token(s).len() ==> first_token(s)[j] == first_token(
                    s.drop_first(),
                )[j - 1]);
        }
    }
}

/// Appending either nothing or a space-led suffix to a spaceless token
/// leaves the token as the index prefix.
proof fn lemma_first_token_of_extension(t: Seq<char>, u: Seq<char>)
    requires
        forall|j: int| 0 <= j < t.len() ==> t[j] != ' ',
        u.len() == 0 || u[0] == ' ',
    ensures
        first_token(t + u) == t,
    decreases t.len(),
{
    if t.len() == 0 {
        assert(t + u =~= u);
        if u.len() == 0 {
            assert(first_token(u) =~= t);
        } else {
            assert(u[0] == ' ');
            assert(first_token(u) =~= t);
        }
    } else {
        assert((t + u)[0] == t[0]);
        assert((t + u).drop_first() =~= t.drop_first() + u);
        assert(forall|j: int| 0 <= j < t.drop_first().len() ==> t.drop_first()[j] != ' ') by {
            assert(forall|j: int|
                0 <= j < t.drop_first().len() ==> t.drop_first()[j] == t[j + 1]);
        }
        lemma_first_token_of_extension(t.drop_first(), u);
        assert(seq![t[0]] + t.drop_first() =~= t);
    }
}

/// Law: composing is idempotent in the workspace name. The name computed
/// from a freshly composed name and the same display strings is that
/// composed name again, so a second update over an unchanged tree computes
/// no new name and issues no rename.
pub proof fn lemma_compose_idempotent(current: Seq<char>, labels: Seq<Seq<char>>, c: Config)
    ensures
        compose(compose(current, labels, c), labels, c) == compose(current, labels, c),
{
    let items = if spec_option(c, "remove_duplicates"@) {
        dedup_first(labels)
    } else {
        labels
    };
    let sfx = suffix_of(items, sep_of(c));
    let tok = first_token(current);
    lemma_first_token_no_space(current);
    assert(sfx.len() == 0 || sfx[0] == ' ');
    lemma_first_token_of_extension(tok, sfx);
}

/// Compute a workspace's new name from its current name and its resolved
/// display strings: keep the leading index token, deduplicate when the
/// `"remove_duplicates"` option is set, join with the configured separator,
/// and prefix the joined string (when non-empty) with a single space.
pub fn compose_name(current: &str, labels: &Vec<String>, config: &Config) -> (r: String)
    ensures
        r@ == compose(current@, views_of(labels@), *config),
{
    let items: Vec<String> = if get_option(config, "remove_duplicates") {
        dedup_labels(labels)
    } else {
        let mut copy: Vec<String> = Vec::new();
        let mut i: usize = 0;
        assert(views_of(copy@) =~= views_of(labels@).take(0));
        while i < labels.len()
            invariant
                i <= labels@.len(),
                views_of(copy@) == views_of(labels@).take(i as int),
            decreases labels@.len() - i,
        {
            let ghost prev = copy@;
            copy.push(labels[i].clone());
            proof {
                assert(views_of(copy@) =~= views_of(prev).push(labels@[i as int]@));
                assert(views_of(labels@).take(i + 1) =~= views_of(labels@).take(i as int).push(
                    labels@[i as int]@,
                ));
            }
            i = i + 1;
        }
        proof {
            assert(views_of(labels@).take(labels@.len() as int) =~= views_of(labels@));
        }
        copy
    };
    let separator: String = match assoc_get(&config.general, "separator") {
        Some(s) => s.clone(),
        None => " | ".to_owned(),
    };
    assert(separator@ == sep_of(*config));
    let joined = join_labels(&items, separator.as_str());

    let n = current.unicode_len();
    let mut i: usize = 0;
    while i < n && current.get_char(i) != ' '
        invariant
            i <= n,
            n == current@.len(),
            forall|j: int| 0 <= j < i ==> current@[j] != ' ',
        decreases n - i,
    {
        i = i + 1;
    }
    proof {
        lemma_first_token_prefix(current@, i as int);
    }
    let mut name: String = current.substring_char(0, i).to_owned();
    if !joined.as_str().is_empty() {
        proof {
            reveal_strlit(" ");
            assert(" "@ =~= seq![' ']);
        }
        name.append(" ");
        name.append(joined.as_str());
        assert(name@ =~= first_token(current@) + (seq![' '] + joined@));
    } else {
        assert(name@ =~= first_token(current@) + Seq::<char>::empty());
    }
    name
}

} // verus!

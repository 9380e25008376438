//! Shared helpers: lexicographic ordering on strings, order-preserving
//! deduplication of identifier lists, and the map view of a list of
//! `(identifier, entity)` entries.

use vstd::prelude::*;
use vstd::string::StrSliceExecFns;

verus! {

/// Lexicographic order on character sequences, by Unicode scalar value.
/// This agrees with Rust's `str` ordering (UTF-8 byte order preserves
/// scalar-value order).
pub open spec fn lex_le(a: Seq<char>, b: Seq<char>) -> bool
    decreases a.len(),
{
    if a.len() == 0 {
        true
    } else if b.len() == 0 {
        false
    } else if (a[0] as u32) < (b[0] as u32) {
        true
    } else if a[0] == b[0] {
        lex_le(a.skip(1), b.skip(1))
    } else {
        false
    }
}

/// Compares two strings lexicographically by character.
pub fn string_le(a: &String, b: &String) -> (r: bool)
    ensures
        r == lex_le(a@, b@),
{
    let a_len: usize = a.as_str().unicode_len();
    let b_len: usize = b.as_str().unicode_len();
    let mut i: usize = 0;
    proof {
        assert(a@.skip(0) =~= a@);
        assert(b@.skip(0) =~= b@);
    }
    loop
        invariant
            i <= a_len,
            i <= b_len,
            a_len == a@.len(),
            b_len == b@.len(),
            forall|j: int| 0 <= j < i ==> a@[j] == b@[j],
            lex_le(a@, b@) == lex_le(a@.skip(i as int), b@.skip(i as int)),
        decreases a_len - i,
    {
        if i == a_len {
            return true;
        }
        if i == b_len {
            return false;
        }
        let ca = a.as_str().get_char(i);
        let cb = b.as_str().get_char(i);
        proof {
            assert(a@.skip(i as int)[0] == a@[i as int]);
            assert(b@.skip(i as int)[0] == b@[i as int]);
            assert(a@.skip(i as int).skip(1) =~= a@.skip(i as int + 1));
            assert(b@.skip(i as int).skip(1) =~= b@.skip(i as int + 1));
        }
        if (ca as u32) < (cb as u32) {
            return true;
        }
        if ca != cb {
            return false;
        }
        i = i + 1;
    }
}

/// Whether some element of `s` has view `v`.
pub open spec fn contains_view(s: Seq<String>, v: Seq<char>) -> bool {
    exists|i: int| 0 <= i < s.len() && s[i]@ == v
}

/// Whether `v` holds a string whose view is `x`'s view.
pub fn contains_string(v: &Vec<String>, x: &String) -> (r: bool)
    ensures
        r == contains_view(v@, x@),
{
    let mut i: usize = 0;
    while i < v.len()
        invariant
            i <= v@.len(),
            forall|j: int| 0 <= j < i ==> v@[j]@ != x@,
        decreases v@.len() - i,
    {
        if v[i].eq(x) {
            return true;
        }
        i = i + 1;
    }
    false
}

/// A concatenation holds a view exactly when one of its parts does.
pub proof fn lemma_contains_view_concat(a: Seq<String>, b: Seq<String>)
    ensures
        forall|v: Seq<char>|
            contains_view(a + b, v) == (contains_view(a, v) || contains_view(b, v)),
{
    assert forall|v: Seq<char>|
        contains_view(a + b, v) == (contains_view(a, v) || contains_view(b, v)) by {
        if contains_view(a, v) {
            let i = choose|i: int| 0 <= i < a.len() && a[i]@ == v;
            assert((a + b)[i]@ == v);
        }
        if contains_view(b, v) {
            let i = choose|i: int| 0 <= i < b.len() && b[i]@ == v;
            assert((a + b)[a.len() + i]@ == v);
        }
        if contains_view(a + b, v) {
            let i = choose|i: int| 0 <= i < (a + b).len() && (a + b)[i]@ == v;
            if i < a.len() {
                assert(a[i]@ == v);
            } else {
                assert(b[i - a.len()]@ == v);
            }
        }
    }
}

/// Order-preserving deduplication: keeps the first occurrence of every
/// view and drops the later ones.
pub open spec fn dedup_by_view(s: Seq<String>) -> Seq<String>
    decreases s.len(),
{
    if s.len() == 0 {
        Seq::empty()
    } else {
        let prefix = dedup_by_view(s.drop_last());
        if contains_view(prefix, s.last()@) {
            prefix
        } else {
            prefix.push(s.last())
        }
    }
}

/// Deduplication keeps exactly the views of the input.
pub proof fn lemma_dedup_same_views(s: Seq<String>)
    ensures
        forall|v: Seq<char>| contains_view(dedup_by_view(s), v) == contains_view(s, v),
    decreases s.len(),
{
    if s.len() > 0 {
        lemma_dedup_same_views(s.drop_last());
        let prefix = dedup_by_view(s.drop_last());
        let d = dedup_by_view(s);
        assert forall|v: Seq<char>| contains_view(s, v) implies contains_view(d, v) by {
            let i = choose|i: int| 0 <= i < s.len() && s[i]@ == v;
            if i < s.len() - 1 {
                assert(s.drop_last()[i]@ == v);
                assert(contains_view(s.drop_last(), v));
                let j = choose|j: int| 0 <= j < prefix.len() && prefix[j]@ == v;
                assert(d[j]@ == v);
            } else {
                if contains_view(prefix, s.last()@) {
                    let j = choose|j: int| 0 <= j < prefix.len() && prefix[j]@ == v;
                    assert(d[j]@ == v);
                } else {
                    assert(d[d.len() - 1]@ == v);
                }
            }
        }
        assert forall|v: Seq<char>| contains_view(d, v) implies contains_view(s, v) by {
            let j = choose|j: int| 0 <= j < d.len() && d[j]@ == v;
            if j < prefix.len() {
                assert(d[j] == prefix[j]);
                assert(contains_view(prefix, v));
                assert(contains_view(s.drop_last(), v));
                let i = choose|i: int| 0 <= i < s.drop_last().len() && s.drop_last()[i]@ == v;
                assert(s.drop_last()[i] == s[i]);
                assert(s[i]@ == v);
            } else {
                assert(s[s.len() - 1]@ == v);
            }
        }
    }
}

/// Deduplication leaves no two elements with the same view.
pub proof fn lemma_dedup_no_dups(s: Seq<String>)
    ensures
        forall|i: int, j: int|
            0 <= i < j < dedup_by_view(s).len() ==> dedup_by_view(s)[i]@ != dedup_by_view(s)[j]@,
    decreases s.len(),
{
    if s.len() > 0 {
        lemma_dedup_no_dups(s.drop_last());
        let prefix = dedup_by_view(s.drop_last());
        let d = dedup_by_view(s);
        if !contains_view(prefix, s.last()@) {
            assert forall|i: int, j: int| 0 <= i < j < d.len() implies d[i]@ != d[j]@ by {
                if j == d.len() - 1 {
                    assert(prefix[i]@ == d[i]@);
                    assert(!(prefix[i]@ == s.last()@));
                }
            }
        }
    }
}

/// Deduplicates a list of identifiers, keeping first occurrences in order.
pub fn dedup_strings(v: &Vec<String>) -> (r: Vec<String>)
    ensures
        r@ == dedup_by_view(v@),
{
    let mut r: Vec<String> = Vec::new();
    let mut i: usize = 0;
    while i < v.len()
        invariant
            i <= v@.len(),
            r@ == dedup_by_view(v@.take(i as int)),
        decreases v@.len() - i,
    {
        proof {
            assert(v@.take(i as int + 1).drop_last() =~= v@.take(i as int));
            assert(v@.take(i as int + 1).last() == v@[i as int]);
        }
        if !contains_string(&r, &v[i]) {
            r.push(v[i].clone());
        }
        i = i + 1;
    }
    proof {
        assert(v@.take(v@.len() as int) =~= v@);
    }
    r
}

/// Whether `p` is a prefix of `s`.
pub open spec fn is_prefix_of(p: Seq<char>, s: Seq<char>) -> bool {
    p.len() <= s.len() && s.subrange(0, p.len() as int) == p
}

/// Whether the string starts with the given prefix.
pub fn str_starts_with(s: &str, prefix: &str) -> (r: bool)
    ensures
        r == is_prefix_of(prefix@, s@),
{
    let p_len: usize = prefix.unicode_len();
    let s_len: usize = s.unicode_len();
    if p_len > s_len {
        proof {
            assert(!is_prefix_of(prefix@, s@));
        }
        return false;
    }
    let mut i: usize = 0;
    while i < p_len
        invariant
            i <= p_len,
            p_len == prefix@.len(),
            s_len == s@.len(),
            p_len <= s_len,
            forall|j: int| 0 <= j < i ==> s@[j] == prefix@[j],
        decreases p_len - i,
    {
        if s.get_char(i) != prefix.get_char(i) {
            proof {
                assert(s@.subrange(0, prefix@.len() as int)[i as int] == s@[i as int]);
            }
            return false;
        }
        i = i + 1;
    }
    proof {
        assert(s@.subrange(0, prefix@.len() as int) =~= prefix@);
    }
    true
}

/// Clones an optional string, preserving the value exactly.
pub fn clone_opt_string(o: &Option<String>) -> (r: Option<String>)
    ensures
        r == *o,
{
    match o {
        Some(s) => Some(s.clone()),
        None => None,
    }
}

/// Clones a vector of strings, preserving each element exactly.
pub fn clone_string_vec(v: &Vec<String>) -> (r: Vec<String>)
    ensures
        r@ == v@,
{
    let mut r: Vec<String> = Vec::new();
    let mut i: usize = 0;
    while i < v.len()
        invariant
            i <= v@.len(),
            r@ == v@.take(i as int),
        decreases v@.len() - i,
    {
        r.push(v[i].clone());
        proof {
            assert(r@ =~= v@.take(i as int + 1));
        }
        i = i + 1;
    }
    proof {
        assert(v@.take(v@.len() as int) =~= v@);
    }
    r
}

/// The archival file name for a parsed permalink: the channel id, then
/// the set `{thread root timestamp or ts, ts}` deduplicated and sorted
/// lexicographically, joined with `-`, with `.json` appended.
pub open spec fn spec_file_name(
    channel_id: Seq<char>,
    ts: Seq<char>,
    thread_ts: Option<Seq<char>>,
) -> Seq<char> {
    let other = match thread_ts {
        Some(t) => t,
        None => ts,
    };
    let json = seq!['.', 'j', 's', 'o', 'n'];
    let dash = seq!['-'];
    if other == ts {
        channel_id + dash + ts + json
    } else if lex_le(other, ts) {
        channel_id + dash + other + dash + ts + json
    } else {
        channel_id + dash + ts + dash + other + json
    }
}

/// Derives the archival file name from a parsed permalink.
pub fn create_file_name(slack_url: &crate::slack_url::SlackUrl) -> (r: String)
    ensures
        r@ == spec_file_name(
            slack_url.channel_id@,
            slack_url.ts@,
            slack_url.thread_ts.deep_view(),
        ),
{
    let other: &String = match &slack_url.thread_ts {
        Some(t) => t,
        None => &slack_url.ts,
    };
    let mut name = slack_url.channel_id.clone();
    name.append("-");
    proof {
        reveal_strlit("-");
        reveal_strlit(".json");
        assert("-"@ =~= seq!['-']);
        assert(".json"@ =~= seq!['.', 'j', 's', 'o', 'n']);
    }
    if other.eq(&slack_url.ts) {
        name.append(slack_url.ts.as_str());
        name.append(".json");
    } else if string_le(other, &slack_url.ts) {
        name.append(other.as_str());
        name.append("-");
        name.append(slack_url.ts.as_str());
        name.append(".json");
    } else {
        name.append(slack_url.ts.as_str());
        name.append("-");
        name.append(other.as_str());
        name.append(".json");
    }
    name
}

/// Whether the views of the strings in `s` are pairwise distinct.
pub open spec fn unique_string_views(s: Seq<String>) -> bool {
    forall|i: int, j: int| 0 <= i < j < s.len() ==> s[i]@ != s[j]@
}

/// Whether the identifier keys of `entries` are pairwise distinct.
pub open spec fn unique_keys<V>(entries: Seq<(String, V)>) -> bool {
    forall|i: int, j: int| 0 <= i < j < entries.len() ==> entries[i].0@ != entries[j].0@
}

/// The finite map that a list of `(identifier, entity)` entries denotes.
pub open spec fn keyed_map<V>(entries: Seq<(String, V)>) -> Map<Seq<char>, V> {
    Map::new(
        |k: Seq<char>| exists|i: int| 0 <= i < entries.len() && entries[i].0@ == k,
        |k: Seq<char>|
            entries[choose|i: int| 0 <= i < entries.len() && entries[i].0@ == k].1,
    )
}

/// With distinct keys, every entry is found in the denoted map under its
/// own key.
pub proof fn lemma_keyed_map_entry<V>(entries: Seq<(String, V)>, i: int)
    requires
        unique_keys(entries),
        0 <= i < entries.len(),
    ensures
        keyed_map(entries).contains_key(entries[i].0@),
        keyed_map(entries)[entries[i].0@] == entries[i].1,
{
    let k = entries[i].0@;
    let j = choose|j: int| 0 <= j < entries.len() && entries[j].0@ == k;
    if i != j {
        if i < j {
            assert(entries[i].0@ != entries[j].0@);
        } else {
            assert(entries[j].0@ != entries[i].0@);
        }
    }
}

} // verus!

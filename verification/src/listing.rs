//! Decisions of the directory lister: which listed entries count as
//! directories for exploratory browsing, and which home-directory
//! children look like domains (name holds a dot, is not hidden),
//! preferring their `public_html` subpath when present. The listing
//! itself is driven by the surrounding application.

use vstd::prelude::*;
use vstd::multiset::Multiset;
use vstd::string::StrSliceExecFns;
use vstd::string::StringExecFns;
use crate::text::{contains_char, is_hidden_name, spec_contains_char, spec_is_hidden};

verus! {

broadcast use vstd::seq_lib::group_to_multiset_ensures;

/// Lexicographic order on character sequences, by code point; the
/// empty sequence comes first.
pub open spec fn lex_le(a: Seq<char>, b: Seq<char>) -> bool
    decreases a.len(),
{
    if a.len() == 0 {
        true
    } else if b.len() == 0 {
        false
    } else if (a[0] as u32) == (b[0] as u32) {
        lex_le(a.drop_first(), b.drop_first())
    } else {
        (a[0] as u32) < (b[0] as u32)
    }
}

/// Any two sequences are ordered one way or the other.
pub proof fn lemma_lex_le_total(a: Seq<char>, b: Seq<char>)
    ensures
        lex_le(a, b) || lex_le(b, a),
    decreases a.len(),
{
    if a.len() > 0 && b.len() > 0 && (a[0] as u32) == (b[0] as u32) {
        lemma_lex_le_total(a.drop_first(), b.drop_first());
    }
}

/// The lexicographic order is transitive.
pub proof fn lemma_lex_le_trans(a: Seq<char>, b: Seq<char>, c: Seq<char>)
    requires
        lex_le(a, b),
        lex_le(b, c),
    ensures
        lex_le(a, c),
    decreases a.len(),
{
    if a.len() > 0 && b.len() > 0 && c.len() > 0 && (a[0] as u32) == (b[0] as u32) && (
    b[0] as u32) == (c[0] as u32) {
        lemma_lex_le_trans(a.drop_first(), b.drop_first(), c.drop_first());
    }
}

/// Compare two strings in lexicographic order.
pub fn str_le(a: &str, b: &str) -> (r: bool)
    ensures
        r == lex_le(a@, b@),
{
    let an = a.unicode_len();
    let bn = b.unicode_len();
    let mut i: usize = 0;
    proof {
        assert(a@.skip(0) =~= a@);
        assert(b@.skip(0) =~= b@);
    }
    while i < an && i < bn
        invariant
            an == a@.len(),
            bn == b@.len(),
            i <= an,
            i <= bn,
            lex_le(a@, b@) == lex_le(a@.skip(i as int), b@.skip(i as int)),
            lex_le(b@, a@) == lex_le(b@.skip(i as int), a@.skip(i as int)),
        decreases an - i,
    {
        let ca = a.get_char(i);
        let cb = b.get_char(i);
        if (ca as u32) != (cb as u32) {
            proof {
                assert(a@.skip(i as int)[0] == a@[i as int]);
                assert(b@.skip(i as int)[0] == b@[i as int]);
            }
            return (ca as u32) < (cb as u32);
        }
        proof {
            assert(a@.skip(i as int)[0] == a@[i as int]);
            assert(b@.skip(i as int)[0] == b@[i as int]);
            assert(a@.skip(i as int).drop_first() =~= a@.skip(i as int + 1));
            assert(b@.skip(i as int).drop_first() =~= b@.skip(i as int + 1));
        }
        i = i + 1;
    }
    proof {
        if i >= an {
            assert(a@.skip(i as int).len() == 0);
        } else {
            assert(b@.skip(i as int).len() == 0);
            assert(a@.skip(i as int).len() > 0);
        }
    }
    an <= bn
}

/// The paths are in lexicographic order.
pub open spec fn sorted_lex(s: Seq<String>) -> bool {
    forall|i: int, j: int| 0 <= i <= j < s.len() ==> lex_le(#[trigger] s[i]@, #[trigger] s[j]@)
}

/// Sort paths lexicographically by selection of the earliest minimum,
/// preserving the multiset of paths.
pub fn sort_paths(input: Vec<String>) -> (r: Vec<String>)
    ensures
        sorted_lex(r@),
        r@.to_multiset() == input@.to_multiset(),
        r@.len() == input@.len(),
{
    let mut v = input;
    let ghost all = v@.to_multiset();
    let mut r: Vec<String> = Vec::new();
    proof {
        assert(r@.to_multiset().add(v@.to_multiset()) =~= all);
    }
    while v.len() > 0
        invariant
            r@.to_multiset().add(v@.to_multiset()) == all,
            r@.len() + v@.len() == all.len(),
            sorted_lex(r@),
            forall|a: int, b: int|
                0 <= a < r@.len() && 0 <= b < v@.len() ==> lex_le(
                    #[trigger] r@[a]@,
                    #[trigger] v@[b]@,
                ),
        decreases v.len(),
    {
        let n = v.len();
        let mut m: usize = 0;
        let mut k: usize = 1;
        proof {
            lemma_lex_le_total(v@[0]@, v@[0]@);
        }
        while k < n
            invariant
                n == v.len(),
                m < k <= n,
                forall|t: int| 0 <= t < k ==> lex_le(v@[m as int]@, #[trigger] v@[t]@),
            decreases n - k,
        {
            let earlier_wins = str_le(&v[m], &v[k]);
            proof {
                lemma_lex_le_total(v@[m as int]@, v@[k as int]@);
            }
            if !earlier_wins {
                proof {
                    assert forall|t: int| 0 <= t < k + 1 implies lex_le(
                        v@[k as int]@,
                        #[trigger] v@[t]@,
                    ) by {
                        if t < k {
                            lemma_lex_le_trans(v@[k as int]@, v@[m as int]@, v@[t]@);
                        } else {
                            lemma_lex_le_total(v@[k as int]@, v@[k as int]@);
                        }
                    }
                }
                m = k;
            }
            k = k + 1;
        }
        let ghost v_before = v@;
        let x = v.remove(m);
        let ghost r_before = r@;
        r.push(x);
        proof {
            assert(v@ == v_before.remove(m as int));
            assert(r@ == r_before.push(x));
            assert(v_before.to_multiset().contains(x));
            assert(r@.to_multiset() =~= r_before.to_multiset().insert(x));
            assert(v@.to_multiset() =~= v_before.to_multiset().remove(x));
            assert(r@.to_multiset().add(v@.to_multiset()) =~= all);
            assert forall|a: int, b: int|
                0 <= a < r@.len() && 0 <= b < v@.len() implies lex_le(
                #[trigger] r@[a]@,
                #[trigger] v@[b]@,
            ) by {
                v_before.remove_ensures(m as int);
                let source = if b < m as int {
                    b
                } else {
                    b + 1
                };
                assert(v@[b] == v_before[source]);
                if a < r_before.len() {
                } else {
                    assert(r@[a] == x);
                }
            }
            assert forall|i: int, j: int| 0 <= i <= j < r@.len() implies lex_le(
                r@[i]@,
                r@[j]@,
            ) by {
                if j == r_before.len() {
                    assert(r@[j] == x);
                    if i < j {
                    } else {
                        lemma_lex_le_total(x@, x@);
                    }
                }
            }
        }
    }
    proof {
        assert(v@.to_multiset() =~= Multiset::<String>::empty());
        assert(r@.to_multiset() =~= all);
        assert(r@.to_multiset().len() == all.len());
    }
    r
}

/// One listed remote entry, as plain values: its full path, its bare
/// name, whether it is a directory, and whether a `public_html`
/// child was found under it.
pub struct RemoteEntryInfo {
    pub path: String,
    pub name: String,
    pub is_dir: bool,
    pub has_public_html: bool,
}

/// The paths of the listed entries that are directories, in listing
/// order.
pub open spec fn dir_paths_of(s: Seq<RemoteEntryInfo>) -> Seq<Seq<char>>
    decreases s,
{
    if s.len() == 0 {
        Seq::empty()
    } else {
        let rest = dir_paths_of(s.drop_last());
        if s.last().is_dir {
            rest.push(s.last().path@)
        } else {
            rest
        }
    }
}

/// A directory child looks like a domain when its name holds a dot
/// and does not start with one.
pub open spec fn spec_is_domain_entry(e: RemoteEntryInfo) -> bool {
    e.is_dir && spec_contains_char(e.name@, '.') && !spec_is_hidden(e.name@)
}

/// The candidate paths of the domain scan, in listing order: for each
/// domain-like directory its `public_html` subpath when one exists,
/// else its bare path.
pub open spec fn domain_candidates_of(s: Seq<RemoteEntryInfo>) -> Seq<Seq<char>>
    decreases s,
{
    if s.len() == 0 {
        Seq::empty()
    } else {
        let rest = domain_candidates_of(s.drop_last());
        if spec_is_domain_entry(s.last()) {
            if s.last().has_public_html {
                rest.push(s.last().path@ + "/public_html"@)
            } else {
                rest.push(s.last().path@)
            }
        } else {
            rest
        }
    }
}

/// Keep the paths of the entries flagged as directories.
pub fn filter_directories(entries: &Vec<RemoteEntryInfo>) -> (r: Vec<String>)
    ensures
        r.deep_view() == dir_paths_of(entries@),
{
    let n = entries.len();
    let mut r: Vec<String> = Vec::new();
    let mut i: usize = 0;
    proof {
        assert(entries@.take(0) =~= Seq::<RemoteEntryInfo>::empty());
        assert(r.deep_view() =~= dir_paths_of(entries@.take(0)));
    }
    while i < n
        invariant
            n == entries@.len(),
            i <= n,
            r.deep_view() == dir_paths_of(entries@.take(i as int)),
        decreases n - i,
    {
        proof {
            assert(entries@.take(i as int + 1).drop_last() =~= entries@.take(i as int));
            assert(entries@.take(i as int + 1).last() == entries@[i as int]);
        }
        let e = &entries[i];
        if e.is_dir {
            let ghost before = r.deep_view();
            r.push(e.path.clone());
            proof {
                assert forall|k: int| 0 <= k < r.deep_view().len() implies r.deep_view()[k]
                    == before.push(entries@[i as int].path@)[k] by {
                    assert(r.deep_view()[k] == r@[k]@);
                }
                assert(r.deep_view() =~= before.push(entries@[i as int].path@));
            }
        }
        i = i + 1;
    }
    proof {
        assert(entries@.take(n as int) =~= entries@);
    }
    r
}

/// Keep the domain-like directories of a home-directory listing,
/// preferring their `public_html` subpath.
pub fn select_domain_candidates(entries: &Vec<RemoteEntryInfo>) -> (r: Vec<String>)
    ensures
        r.deep_view() == domain_candidates_of(entries@),
{
    let n = entries.len();
    let mut r: Vec<String> = Vec::new();
    let mut i: usize = 0;
    proof {
        assert(entries@.take(0) =~= Seq::<RemoteEntryInfo>::empty());
        assert(r.deep_view() =~= domain_candidates_of(entries@.take(0)));
    }
    while i < n
        invariant
            n == entries@.len(),
            i <= n,
            r.deep_view() == domain_candidates_of(entries@.take(i as int)),
        decreases n - i,
    {
        proof {
            assert(entries@.take(i as int + 1).drop_last() =~= entries@.take(i as int));
            assert(entries@.take(i as int + 1).last() == entries@[i as int]);
        }
        let e = &entries[i];
        if e.is_dir && contains_char(e.name.as_str(), '.') && !is_hidden_name(e.name.as_str()) {
            let ghost before = r.deep_view();
            if e.has_public_html {
                let mut candidate = e.path.clone();
                candidate.append("/public_html");
                r.push(candidate);
                proof {
                    assert forall|k: int| 0 <= k < r.deep_view().len() implies r.deep_view()[k]
                        == before.push(entries@[i as int].path@ + "/public_html"@)[k] by {
                        assert(r.deep_view()[k] == r@[k]@);
                    }
                    assert(r.deep_view() =~= before.push(
                        entries@[i as int].path@ + "/public_html"@,
                    ));
                }
            } else {
                r.push(e.path.clone());
                proof {
                    assert forall|k: int| 0 <= k < r.deep_view().len() implies r.deep_view()[k]
                        == before.push(entries@[i as int].path@)[k] by {
                        assert(r.deep_view()[k] == r@[k]@);
                    }
                    assert(r.deep_view() =~= before.push(entries@[i as int].path@));
                }
            }
        }
        i = i + 1;
    }
    proof {
        assert(entries@.take(n as int) =~= entries@);
    }
    r
}

} // verus!

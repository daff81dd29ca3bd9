//! Framework entry points of a package without `main` or `module`: the glob
//! patterns of the frameworks, with their braces expanded and rooted at the
//! package, and the ordered set of files found for them inside the package.
use vstd::prelude::*;
use crate::braces::{expand_braces, expansion};
use crate::ignore::texts;
use crate::paths::{path_starts_with, path_starts_with_base};
use crate::text::{chars_of, push_str, seq_starts_with, str_eq, to_owned_string};

verus! {

broadcast use vstd::seq_lib::group_seq_properties;

/// A framework pattern made absolute under `root`: a leading `**/` or `**`
/// is dropped, and what remains follows the root and a separator.
pub open spec fn rooted_pattern(root: Seq<char>, expanded: Seq<char>) -> Seq<char> {
    if seq_starts_with(expanded, seq!['*', '*', '/']) {
        root + seq!['/'] + expanded.skip(3)
    } else if seq_starts_with(expanded, seq!['*', '*']) {
        root + seq!['/'] + expanded.skip(2)
    } else {
        root + seq!['/'] + expanded
    }
}

/// The glob for one expanded framework pattern.
pub fn glob_pattern_for(root: &str, expanded: &str) -> (r: String)
    ensures
        r@ == rooted_pattern(root@, expanded@),
{
    let cs = chars_of(expanded);
    let skip: usize = if cs.len() >= 3 && cs[0] == '*' && cs[1] == '*' && cs[2] == '/' {
        3
    } else if cs.len() >= 2 && cs[0] == '*' && cs[1] == '*' {
        2
    } else {
        0
    };
    let mut r = to_owned_string(root);
    crate::text::push_char(&mut r, '/');
    let mut i: usize = skip;
    while i < cs.len()
        invariant
            skip <= i <= cs@.len(),
            cs@ == expanded@,
            r@ == root@ + seq!['/'] + expanded@.subrange(skip as int, i as int),
        decreases cs@.len() - i,
    {
        crate::text::push_char(&mut r, cs[i]);
        assert(expanded@.subrange(skip as int, i + 1) =~= expanded@.subrange(skip as int, i as int).push(cs@[i as int]));
        i = i + 1;
    }
    proof {
        assert(expanded@.subrange(skip as int, cs@.len() as int) =~= expanded@.skip(skip as int));
        assert(expanded@.skip(0) =~= expanded@);
        if skip == 3 {
            assert(expanded@.subrange(0, 3) =~= seq!['*', '*', '/']);
        } else {
            if seq_starts_with(expanded@, seq!['*', '*', '/']) {
                assert(expanded@[2] == seq!['*', '*', '/'][2]);
            }
            if skip == 2 {
                assert(expanded@.subrange(0, 2) =~= seq!['*', '*']);
            } else if seq_starts_with(expanded@, seq!['*', '*']) {
                assert(expanded@[0] == seq!['*', '*'][0] && expanded@[1] == seq!['*', '*'][1]);
            }
        }
    }
    r
}

/// The globs of a list of framework patterns, in order: each pattern's brace
/// expansions, rooted.
pub open spec fn pattern_globs(root: Seq<char>, patterns: Seq<Seq<char>>) -> Seq<Seq<char>>
    decreases patterns.len(),
{
    if patterns.len() == 0 {
        Seq::empty()
    } else {
        pattern_globs(root, patterns.drop_last()) + expansion(patterns.last()).map_values(
            |e: Seq<char>| rooted_pattern(root, e),
        )
    }
}

/// The globs of the framework pattern groups, group after group.
pub open spec fn group_globs(root: Seq<char>, groups: Seq<Seq<Seq<char>>>) -> Seq<Seq<char>>
    decreases groups.len(),
{
    if groups.len() == 0 {
        Seq::empty()
    } else {
        group_globs(root, groups.drop_last()) + pattern_globs(root, groups.last())
    }
}

fn append_globs(out: &mut Vec<String>, root: &str, pattern: &str)
    ensures
        texts(final(out)@) == texts(old(out)@) + expansion(pattern@).map_values(|e: Seq<char>| rooted_pattern(root@, e)),
{
    let expanded = expand_braces(pattern);
    let ghost start = texts(out@);
    let mut k: usize = 0;
    while k < expanded.len()
        invariant
            k <= expanded@.len(),
            texts(expanded@) == expansion(pattern@),
            texts(out@) == start + texts(expanded@).take(k as int).map_values(|e: Seq<char>| rooted_pattern(root@, e)),
        decreases expanded@.len() - k,
    {
        let g = glob_pattern_for(root, expanded[k].as_str());
        let ghost before = texts(out@);
        out.push(g);
        proof {
            let ex = texts(expanded@);
            assert(ex.take(k + 1) =~= ex.take(k as int).push(ex[k as int]));
            assert(texts(out@) =~= before.push(g@));
        }
        k = k + 1;
    }
    proof {
        assert(texts(expanded@).take(expanded@.len() as int) =~= texts(expanded@));
    }
}

/// The pattern texts of the groups.
pub open spec fn group_texts(groups: Seq<Vec<String>>) -> Seq<Seq<Seq<char>>> {
    groups.map_values(|g: Vec<String>| texts(g@))
}

proof fn lemma_pattern_globs_step(root: Seq<char>, g: Seq<Seq<char>>, j: int)
    requires
        0 <= j < g.len(),
    ensures
        pattern_globs(root, g.take(j + 1)) == pattern_globs(root, g.take(j)) + expansion(g[j]).map_values(
            |e: Seq<char>| rooted_pattern(root, e),
        ),
{
    assert(g.take(j + 1).drop_last() =~= g.take(j));
    assert(g.take(j + 1).last() == g[j]);
}

fn append_group(out: &mut Vec<String>, root: &str, group: &Vec<String>)
    ensures
        texts(final(out)@) == texts(old(out)@) + pattern_globs(root@, texts(group@)),
{
    let ghost g = texts(group@);
    let ghost before = texts(out@);
    let mut j: usize = 0;
    while j < group.len()
        invariant
            j <= group@.len(),
            g == texts(group@),
            texts(out@) == before + pattern_globs(root@, g.take(j as int)),
        decreases group@.len() - j,
    {
        let ghost mid = texts(out@);
        append_globs(out, root, group[j].as_str());
        proof {
            lemma_pattern_globs_step(root@, g, j as int);
            assert(texts(out@) =~= before + pattern_globs(root@, g.take(j + 1)));
        }
        j = j + 1;
    }
    proof {
        assert(g.take(g.len() as int) =~= g);
    }
}

/// The globs to search for the framework entry points of the package at
/// `root`: every pattern of every group, brace-expanded and rooted, in order.
pub fn entry_point_globs(root: &str, pattern_groups: &Vec<Vec<String>>) -> (r: Vec<String>)
    ensures
        texts(r@) == group_globs(root@, group_texts(pattern_groups@)),
{
    let ghost gs = group_texts(pattern_groups@);
    let mut out: Vec<String> = Vec::new();
    let mut i: usize = 0;
    while i < pattern_groups.len()
        invariant
            i <= pattern_groups@.len(),
            gs == group_texts(pattern_groups@),
            texts(out@) == group_globs(root@, gs.take(i as int)),
        decreases pattern_groups@.len() - i,
    {
        append_group(&mut out, root, &pattern_groups[i]);
        proof {
            assert(gs.take(i + 1).drop_last() =~= gs.take(i as int));
            assert(gs.take(i + 1).last() == texts(pattern_groups@[i as int]@));
        }
        i = i + 1;
    }
    proof {
        assert(gs.take(gs.len() as int) =~= gs);
    }
    out
}

/// Character order within paths: the separator comes before every other
/// character, which follow in code-point order.
pub open spec fn path_char_before(x: char, y: char) -> bool {
    (x == '/' && y != '/') || (x != '/' && y != '/' && (x as int) < (y as int))
}

/// `a` and `b` agree on their first `k` characters.
pub open spec fn agree_below(a: Seq<char>, b: Seq<char>, k: int) -> bool {
    0 <= k <= a.len() && k <= b.len() && forall|i: int| 0 <= i < k ==> a[i] == b[i]
}

/// Path order on the text of paths: compared character by character with the
/// separator ranked first, a proper prefix coming first. On canonical absolute
/// paths (no empty, `.` or `..` components) this is the order of
/// `std::path::Path`, which compares component by component.
pub open spec fn path_before(a: Seq<char>, b: Seq<char>) -> bool {
    exists|k: int|
        #![trigger agree_below(a, b, k)]
        agree_below(a, b, k) && ((k == a.len() && k < b.len()) || (k < a.len() && k < b.len() && path_char_before(a[k], b[k])))
}

/// Two texts agree up to a first position where one ends or they differ.
pub(crate) proof fn lemma_first_difference(a: Seq<char>, b: Seq<char>, k: int) -> (d: int)
    requires
        agree_below(a, b, k),
    ensures
        agree_below(a, b, d),
        d == a.len() || d == b.len() || a[d] != b[d],
    decreases a.len() - k,
{
    if k == a.len() || k == b.len() || a[k] != b[k] {
        k
    } else {
        assert(agree_below(a, b, k + 1));
        lemma_first_difference(a, b, k + 1)
    }
}

/// Path order compares at the first difference only.
proof fn lemma_before_at(a: Seq<char>, b: Seq<char>, d: int)
    requires
        agree_below(a, b, d),
        d == a.len() || d == b.len() || a[d] != b[d],
    ensures
        path_before(a, b) <==> ((d == a.len() && d < b.len()) || (d < a.len() && d < b.len() && path_char_before(a[d], b[d]))),
{
    if path_before(a, b) {
        let k = choose|k: int|
            #![trigger agree_below(a, b, k)]
            agree_below(a, b, k) && ((k == a.len() && k < b.len()) || (k < a.len() && k < b.len() && path_char_before(a[k], b[k])));
        if k < d {
            assert(a[k] == b[k]);
        } else if d < k {
            assert(a[d] == b[d]);
        }
    }
    if (d == a.len() && d < b.len()) || (d < a.len() && d < b.len() && path_char_before(a[d], b[d])) {
        assert(agree_below(a, b, d));
    }
}

/// Path order is a strict total order: irreflexive, total on distinct texts,
/// asymmetric and transitive.
pub proof fn lemma_path_order(a: Seq<char>, b: Seq<char>, c: Seq<char>)
    ensures
        !path_before(a, a),
        a != b ==> path_before(a, b) || path_before(b, a),
        path_before(a, b) ==> !path_before(b, a),
        path_before(a, b) && path_before(b, c) ==> path_before(a, c),
{
    assert(agree_below(a, a, 0));
    let e = lemma_first_difference(a, a, 0);
    lemma_before_at(a, a, e);
    assert(agree_below(a, b, 0));
    let d = lemma_first_difference(a, b, 0);
    lemma_before_at(a, b, d);
    assert(agree_below(b, a, d));
    lemma_before_at(b, a, d);
    if d == a.len() && d == b.len() {
        assert(a =~= b);
    } else if d < a.len() && d < b.len() {
        assert(a[d] as int != b[d] as int);
    }
    if path_before(a, b) && path_before(b, c) {
        assert(agree_below(b, c, 0));
        let d2 = lemma_first_difference(b, c, 0);
        lemma_before_at(b, c, d2);
        let m = if d < d2 { d } else { d2 };
        assert(agree_below(a, c, m));
        if d < d2 {
            assert(path_before(a, c) <==> ((m == a.len() && m < c.len()) || (m < a.len() && m < c.len() && path_char_before(a[m], c[m])))) by {
                lemma_before_at(a, c, m);
            }
        } else if d2 < d {
            assert(path_before(a, c) <==> ((m == a.len() && m < c.len()) || (m < a.len() && m < c.len() && path_char_before(a[m], c[m])))) by {
                lemma_before_at(a, c, m);
            }
        } else {
            let f = lemma_first_difference(a, c, m);
            lemma_before_at(a, c, f);
        }
    }
}

/// Whether `a` comes before `b` in path order.
pub fn path_less(a: &str, b: &str) -> (r: bool)
    ensures
        r == path_before(a@, b@),
{
    let x = chars_of(a);
    let y = chars_of(b);
    let mut i: usize = 0;
    while i < x.len() && i < y.len() && x[i] == y[i]
        invariant
            i <= x@.len(),
            i <= y@.len(),
            x@ == a@,
            y@ == b@,
            agree_below(a@, b@, i as int),
        decreases x@.len() - i,
    {
        i = i + 1;
    }
    proof {
        lemma_before_at(a@, b@, i as int);
    }
    if i == x.len() {
        i < y.len()
    } else if i == y.len() {
        false
    } else {
        let p = x[i];
        let q = y[i];
        if p == '/' {
            q != '/'
        } else if q == '/' {
            false
        } else {
            p < q
        }
    }
}

/// Texts strictly ascending in path order.
pub open spec fn path_sorted(s: Seq<Seq<char>>) -> bool {
    forall|i: int, j: int| 0 <= i < j < s.len() ==> path_before(#[trigger] s[i], #[trigger] s[j])
}

/// The candidates that lie within the root, whole components only.
pub open spec fn within_root(candidates: Seq<Seq<char>>, root: Seq<char>, x: Seq<char>) -> bool {
    candidates.contains(x) && path_starts_with_base(x, root)
}

/// The framework entry points found: the canonical paths of the files that
/// the globs matched, kept when they lie within the canonical package root,
/// each once, in path order.
pub fn framework_entry_points(candidates: &Vec<String>, canonical_root: &str) -> (r: Vec<String>)
    ensures
        path_sorted(texts(r@)),
        forall|x: Seq<char>| texts(r@).contains(x) <==> within_root(texts(candidates@), canonical_root@, x),
{
    let ghost cs = texts(candidates@);
    let mut out: Vec<String> = Vec::new();
    let mut i: usize = 0;
    while i < candidates.len()
        invariant
            i <= candidates@.len(),
            cs == texts(candidates@),
            path_sorted(texts(out@)),
            forall|x: Seq<char>| texts(out@).contains(x) <==> within_root(cs.take(i as int), canonical_root@, x),
        decreases candidates@.len() - i,
    {
        let c = &candidates[i];
        proof {
            assert(cs.take(i + 1) =~= cs.take(i as int).push(c@));
        }
        if path_starts_with(c.as_str(), canonical_root) {
            let ghost os = texts(out@);
            let mut j: usize = 0;
            while j < out.len() && path_less(out[j].as_str(), c.as_str())
                invariant
                    j <= out@.len(),
                    os == texts(out@),
                    forall|k: int| 0 <= k < j ==> path_before(#[trigger] os[k], c@),
                decreases out@.len() - j,
            {
                j = j + 1;
            }
            let present = j < out.len() && str_eq(out[j].as_str(), c.as_str());
            if !present {
                proof {
                    if j < os.len() {
                        lemma_path_order(c@, os[j as int], os[j as int]);
                        assert(path_before(c@, os[j as int]));
                    }
                }
                out.insert(j, c.clone());
                proof {
                    let ns = texts(out@);
                    assert(ns =~= os.insert(j as int, c@));
                    assert forall|a: int, b: int| 0 <= a < b < ns.len() implies path_before(#[trigger] ns[a], #[trigger] ns[b]) by {
                        if b < j {
                            assert(ns[a] == os[a] && ns[b] == os[b]);
                        } else if b == j {
                            assert(ns[a] == os[a]);
                        } else if a < j {
                            assert(ns[a] == os[a] && ns[b] == os[b - 1]);
                            lemma_path_order(os[a], c@, os[j as int]);
                            if b - 1 > j {
                                lemma_path_order(os[a], os[j as int], os[b - 1]);
                            }
                        } else if a == j {
                            assert(ns[b] == os[b - 1]);
                            if b - 1 > j {
                                lemma_path_order(c@, os[j as int], os[b - 1]);
                            }
                        } else {
                            assert(ns[a] == os[a - 1] && ns[b] == os[b - 1]);
                        }
                    }
                    assert forall|x: Seq<char>| ns.contains(x) <==> within_root(cs.take(i + 1), canonical_root@, x) by {
                        if ns.contains(x) {
                            let k = choose|k: int| 0 <= k < ns.len() && ns[k] == x;
                            if k < j {
                                assert(os[k] == x);
                            } else if k > j {
                                assert(os[k - 1] == x);
                            }
                        }
                        if os.contains(x) {
                            let k = choose|k: int| 0 <= k < os.len() && os[k] == x;
                            if k < j {
                                assert(ns[k] == x);
                            } else {
                                assert(ns[k + 1] == x);
                            }
                        }
                        assert(ns[j as int] == c@);
                    }
                }
            } else {
                proof {
                    assert(os[j as int] == c@);
                }
            }
        } else {
            proof {
                assert forall|x: Seq<char>| texts(out@).contains(x) <==> within_root(cs.take(i + 1), canonical_root@, x) by {
                    if x == c@ {
                        assert(!path_starts_with_base(x, canonical_root@));
                    }
                }
            }
        }
        i = i + 1;
    }
    proof {
        assert(cs.take(cs.len() as int) =~= cs);
    }
    out
}

} // verus!

//! Brace expansion of entry-point patterns: `file.{ts,js}` stands for
//! `file.ts` and `file.js`.
use vstd::prelude::*;
use crate::ignore::texts;
use crate::text::string_from_chars;

verus! {

/// The number of occurrences of `c` in `s`.
pub open spec fn count_of(s: Seq<char>, c: char) -> nat
    decreases s.len(),
{
    if s.len() == 0 {
        0
    } else {
        count_of(s.drop_last(), c) + if s.last() == c {
            1nat
        } else {
            0nat
        }
    }
}

proof fn lemma_count_concat(a: Seq<char>, b: Seq<char>, c: char)
    ensures
        count_of(a + b, c) == count_of(a, c) + count_of(b, c),
    decreases b.len(),
{
    if b.len() == 0 {
        assert(a + b =~= a);
    } else {
        assert((a + b).drop_last() =~= a + b.drop_last());
        lemma_count_concat(a, b.drop_last(), c);
    }
}

proof fn lemma_count_subrange(s: Seq<char>, i: int, j: int, c: char)
    requires
        0 <= i <= j <= s.len(),
    ensures
        count_of(s.subrange(i, j), c) <= count_of(s, c),
{
    assert(s =~= s.subrange(0, i) + s.subrange(i, j) + s.subrange(j, s.len() as int));
    lemma_count_concat(s.subrange(0, i) + s.subrange(i, j), s.subrange(j, s.len() as int), c);
    lemma_count_concat(s.subrange(0, i), s.subrange(i, j), c);
}

/// The position of the first `c` in `s`, if any.
pub open spec fn first_index_of(s: Seq<char>, c: char) -> Option<int> {
    if exists|i: int| 0 <= i < s.len() && s[i] == c {
        Some(choose|i: int| 0 <= i < s.len() && s[i] == c && forall|j: int| 0 <= j < i ==> s[j] != c)
    } else {
        None
    }
}

/// The pieces of `s` between occurrences of `sep`, in order (`str::split`).
pub open spec fn split_on(s: Seq<char>, sep: char) -> Seq<Seq<char>>
    decreases s.len(),
{
    if s.len() == 0 {
        seq![Seq::empty()]
    } else if s.last() == sep {
        split_on(s.drop_last(), sep).push(Seq::empty())
    } else {
        let prev = split_on(s.drop_last(), sep);
        prev.update(prev.len() - 1, prev.last().push(s.last()))
    }
}

/// The first brace group of a pattern: the text before the first `{`, the
/// text between it and the first `}` after it, and the text after that `}`.
pub open spec fn brace_group(p: Seq<char>) -> Option<(Seq<char>, Seq<char>, Seq<char>)> {
    match first_index_of(p, '{') {
        None => None,
        Some(start) => match first_index_of(p.subrange(start, p.len() as int), '}') {
            None => None,
            Some(off) => Some(
                (
                    p.subrange(0, start),
                    p.subrange(start + 1, start + off),
                    p.subrange(start + off + 1, p.len() as int),
                ),
            ),
        },
    }
}

/// The expansion of a pattern: without a brace group, the pattern itself;
/// otherwise, for each comma-separated option of the first group in order,
/// the expansion of the pattern with the group replaced by that option.
pub open spec fn expansion(p: Seq<char>) -> Seq<Seq<char>>
    decreases count_of(p, '{') + 1, 0nat,
{
    match brace_group(p) {
        None => seq![p],
        Some((prefix, options, suffix)) => expansion_of_options(
            count_of(p, '{'),
            prefix,
            split_on(options, ','),
            suffix,
        ),
    }
}

/// The expansions of `prefix + option + suffix` for each option in order;
/// `bound` exceeds the number of `{` in each of those patterns.
pub open spec fn expansion_of_options(
    bound: nat,
    prefix: Seq<char>,
    options: Seq<Seq<char>>,
    suffix: Seq<char>,
) -> Seq<Seq<char>>
    decreases bound, options.len(),
{
    if options.len() == 0 {
        Seq::empty()
    } else {
        let rest = expansion_of_options(bound, prefix, options.drop_last(), suffix);
        let x = prefix + options.last() + suffix;
        if count_of(x, '{') < bound {
            rest + expansion(x)
        } else {
            rest
        }
    }
}

/// The position of the first `c` in `cs` at or after `from`.
fn find_char(cs: &Vec<char>, from: usize, c: char) -> (r: Option<usize>)
    requires
        from <= cs@.len(),
    ensures
        match r {
            Some(i) => from <= i < cs@.len() && cs@[i as int] == c && forall|j: int| from <= j < i ==> cs@[j] != c,
            None => forall|j: int| from <= j < cs@.len() ==> cs@[j] != c,
        },
{
    let mut i = from;
    while i < cs.len()
        invariant
            from <= i <= cs@.len(),
            forall|j: int| from <= j < i ==> cs@[j] != c,
        decreases cs@.len() - i,
    {
        if cs[i] == c {
            return Some(i);
        }
        i = i + 1;
    }
    None
}

proof fn lemma_first_index(s: Seq<char>, c: char, i: int)
    requires
        0 <= i < s.len(),
        s[i] == c,
        forall|j: int| 0 <= j < i ==> s[j] != c,
    ensures
        first_index_of(s, c) == Some(i),
{
    let k = choose|k: int| 0 <= k < s.len() && s[k] == c && forall|j: int| 0 <= j < k ==> s[j] != c;
    if k < i {
        assert(s[k] != c);
    } else if k > i {
        assert(s[i] != c);
    }
}

/// The pieces of `cs[lo..hi]` between commas, each as a range of positions.
fn split_commas(cs: &Vec<char>, lo: usize, hi: usize) -> (r: Vec<(usize, usize)>)
    requires
        lo <= hi <= cs@.len(),
    ensures
        r@.len() == split_on(cs@.subrange(lo as int, hi as int), ',').len(),
        forall|k: int|
            0 <= k < r@.len() ==> lo <= (#[trigger] r@[k]).0 <= r@[k].1 <= hi && cs@.subrange(
                r@[k].0 as int,
                r@[k].1 as int,
            ) == split_on(cs@.subrange(lo as int, hi as int), ',')[k],
{
    let mut r: Vec<(usize, usize)> = Vec::new();
    let mut start = lo;
    let mut i = lo;
    while i < hi
        invariant
            lo <= start <= i <= hi,
            hi <= cs@.len(),
            r@.len() + 1 == split_on(cs@.subrange(lo as int, i as int), ',').len(),
            cs@.subrange(start as int, i as int) == split_on(cs@.subrange(lo as int, i as int), ',').last(),
            forall|k: int|
                0 <= k < r@.len() ==> lo <= (#[trigger] r@[k]).0 <= r@[k].1 <= hi && cs@.subrange(
                    r@[k].0 as int,
                    r@[k].1 as int,
                ) == split_on(cs@.subrange(lo as int, i as int), ',')[k],
        decreases hi - i,
    {
        let ghost s = cs@.subrange(lo as int, i as int);
        let ghost s2 = cs@.subrange(lo as int, i + 1);
        proof {
            assert(s2.drop_last() =~= s);
            assert(s2.last() == cs@[i as int]);
            lemma_split_nonempty(s, ',');
        }
        if cs[i] == ',' {
            r.push((start, i));
            start = i + 1;
            proof {
                assert(split_on(s2, ',') == split_on(s, ',').push(Seq::empty()));
                assert(cs@.subrange(start as int, i + 1) =~= Seq::<char>::empty());
            }
        } else {
            proof {
                let prev = split_on(s, ',');
                assert(split_on(s2, ',') == prev.update(prev.len() - 1, prev.last().push(cs@[i as int])));
                assert(cs@.subrange(start as int, i + 1) =~= cs@.subrange(start as int, i as int).push(cs@[i as int]));
            }
        }
        i = i + 1;
    }
    r.push((start, hi));
    proof {
        lemma_split_nonempty(cs@.subrange(lo as int, hi as int), ',');
    }
    r
}

proof fn lemma_split_nonempty(s: Seq<char>, sep: char)
    ensures
        split_on(s, sep).len() > 0,
    decreases s.len(),
{
    if s.len() > 0 {
        lemma_split_nonempty(s.drop_last(), sep);
    }
}

/// The characters `cs[a..b]` followed by `cs[c..d]` and `cs[e..f]`, as a string.
fn join_three(cs: &Vec<char>, a: usize, b: usize, c: usize, d: usize, e: usize, f: usize) -> (r: String)
    requires
        a <= b <= cs@.len(),
        c <= d <= cs@.len(),
        e <= f <= cs@.len(),
    ensures
        r@ == cs@.subrange(a as int, b as int) + cs@.subrange(c as int, d as int) + cs@.subrange(e as int, f as int),
{
    let mut v: Vec<char> = Vec::new();
    let mut i = a;
    while i < b
        invariant
            a <= i <= b,
            b <= cs@.len(),
            v@ == cs@.subrange(a as int, i as int),
        decreases b - i,
    {
        v.push(cs[i]);
        proof {
            assert(cs@.subrange(a as int, i + 1) =~= cs@.subrange(a as int, i as int).push(cs@[i as int]));
        }
        i = i + 1;
    }
    let ghost first = v@;
    let mut i = c;
    while i < d
        invariant
            c <= i <= d,
            d <= cs@.len(),
            v@ == first + cs@.subrange(c as int, i as int),
        decreases d - i,
    {
        v.push(cs[i]);
        proof {
            assert(cs@.subrange(c as int, i + 1) =~= cs@.subrange(c as int, i as int).push(cs@[i as int]));
        }
        i = i + 1;
    }
    let ghost second = v@;
    let mut i = e;
    while i < f
        invariant
            e <= i <= f,
            f <= cs@.len(),
            v@ == second + cs@.subrange(e as int, i as int),
        decreases f - i,
    {
        v.push(cs[i]);
        proof {
            assert(cs@.subrange(e as int, i + 1) =~= cs@.subrange(e as int, i as int).push(cs@[i as int]));
        }
        i = i + 1;
    }
    string_from_chars(&v)
}

/// Expands brace patterns like `file.{ts,tsx,js}` into `file.ts`,
/// `file.tsx`, `file.js`, expanding every further brace group of each result.
pub fn expand_braces(pattern: &str) -> (r: Vec<String>)
    ensures
        texts(r@) == expansion(pattern@),
    decreases count_of(pattern@, '{'), 1nat,
{
    let cs = crate::text::chars_of(pattern);
    let start = match find_char(&cs, 0, '{') {
        None => {
            proof {
                lemma_expansion_no_group(pattern@, pattern@.len() as int);
            }
            let r = vec![crate::text::to_owned_string(pattern)];
            proof {
                assert(texts(r@) =~= seq![pattern@]);
            }
            return r;
        },
        Some(s) => s,
    };
    let end = match find_char(&cs, start, '}') {
        None => {
            proof {
                lemma_expansion_no_group(pattern@, start as int);
            }
            let r = vec![crate::text::to_owned_string(pattern)];
            proof {
                assert(texts(r@) =~= seq![pattern@]);
            }
            return r;
        },
        Some(e) => e,
    };
    let ghost p = pattern@;
    proof {
        lemma_brace_group(p, start as int, end as int);
        lemma_expansion_group(p, p.subrange(0, start as int), p.subrange(start + 1, end as int), p.subrange(end + 1, p.len() as int));
    }
    expand_group(&cs, start, end)
}

/// The expansions of the options of the brace group of `cs` that opens at
/// `start` and closes at `end`.
fn expand_group(cs: &Vec<char>, start: usize, end: usize) -> (results: Vec<String>)
    requires
        start < end < cs@.len(),
        count_of(cs@.subrange(0, start as int), '{') == 0,
        count_of(cs@, '{') == count_of(cs@.subrange(0, start as int), '{') + 1 + count_of(
            cs@.subrange(start + 1, end as int),
            '{',
        ) + count_of(cs@.subrange(end + 1, cs@.len() as int), '{'),
    ensures
        texts(results@) == expansion_of_options(
            count_of(cs@, '{'),
            cs@.subrange(0, start as int),
            split_on(cs@.subrange(start + 1, end as int), ','),
            cs@.subrange(end + 1, cs@.len() as int),
        ),
    decreases count_of(cs@, '{'), 0nat,
{
    let ghost p = cs@;
    let ghost prefix = p.subrange(0, start as int);
    let ghost options = p.subrange(start + 1, end as int);
    let ghost suffix = p.subrange(end + 1, p.len() as int);
    let pieces = split_commas(cs, start + 1, end);
    let ghost opts = split_on(options, ',');
    let ghost bound = count_of(p, '{');
    let n = cs.len();
    let ghost opts0 = split_on(options, ',');
    let mut results: Vec<String> = Vec::new();
    proof {
        assert(opts0.take(0) =~= Seq::<Seq<char>>::empty());
        assert(texts(results@) =~= Seq::<Seq<char>>::empty());
    }
    let mut k: usize = 0;
    while k < pieces.len()
        invariant
            n == cs@.len(),
            k <= pieces@.len(),
            pieces@.len() == opts.len(),
            cs@ == p,
            start < end < p.len(),
            prefix == p.subrange(0, start as int),
            suffix == p.subrange(end + 1, p.len() as int),
            options == p.subrange(start + 1, end as int),
            opts == split_on(options, ','),
            bound == count_of(p, '{'),
            bound == count_of(prefix, '{') + 1 + count_of(options, '{') + count_of(suffix, '{'),
            count_of(prefix, '{') == 0,
            forall|q: int|
                0 <= q < pieces@.len() ==> start + 1 <= (#[trigger] pieces@[q]).0 <= pieces@[q].1 <= end
                    && p.subrange(pieces@[q].0 as int, pieces@[q].1 as int) == opts[q],
            texts(results@) == expansion_of_options(bound, prefix, opts.take(k as int), suffix),
        decreases pieces@.len() - k,
    {
        let (a, b) = pieces[k];
        let x = join_three(cs, 0, start, a, b, end + 1, n);
        proof {
            lemma_option_count(p, start as int, end as int, a as int, b as int);
            assert(x@ == prefix + opts[k as int] + suffix);
        }
        let expanded = expand_braces(x.as_str());
        let ghost before = results@;
        let mut j: usize = 0;
        let n_exp = expanded.len();
        while j < n_exp
            invariant
                j <= n_exp,
                n_exp == expanded@.len(),
                texts(results@) == texts(before) + texts(expanded@.take(j as int)),
            decreases n_exp - j,
        {
            let ghost r0 = results@;
            results.push(expanded[j].clone());
            proof {
                assert(expanded@.take(j + 1) =~= expanded@.take(j as int).push(expanded@[j as int]));
                assert(texts(results@) =~= texts(r0).push(expanded@[j as int]@));
                assert(texts(expanded@.take(j + 1)) =~= texts(expanded@.take(j as int)).push(expanded@[j as int]@));
            }
            j = j + 1;
        }
        proof {
            assert(expanded@.take(n_exp as int) =~= expanded@);
            lemma_expansion_step(bound, prefix, opts, suffix, k as int);
        }
        k = k + 1;
    }
    proof {
        assert(opts.take(opts.len() as int) =~= opts);
    }
    results
}

/// The first brace group of `p` spans positions `start..=end`; the number of
/// `{` splits over its parts.
proof fn lemma_brace_group(p: Seq<char>, start: int, end: int)
    requires
        0 <= start <= end < p.len(),
        p[start] == '{',
        p[end] == '}',
        forall|j: int| 0 <= j < start ==> p[j] != '{',
        forall|j: int| start <= j < end ==> p[j] != '}',
    ensures
        brace_group(p) == Some((p.subrange(0, start), p.subrange(start + 1, end), p.subrange(end + 1, p.len() as int))),
        count_of(p.subrange(0, start), '{') == 0,
        count_of(p, '{') == count_of(p.subrange(0, start), '{') + 1 + count_of(p.subrange(start + 1, end), '{')
            + count_of(p.subrange(end + 1, p.len() as int), '{'),
{
    let prefix = p.subrange(0, start);
    let options = p.subrange(start + 1, end);
    let suffix = p.subrange(end + 1, p.len() as int);
    lemma_first_index(p, '{', start);
    let tail = p.subrange(start, p.len() as int);
    assert forall|j: int| 0 <= j < end - start implies tail[j] != '}' by {
        assert(tail[j] == p[start + j]);
    }
    assert(tail[end - start] == '}');
    lemma_first_index(tail, '}', end - start);
    let open = p.subrange(start, start + 1);
    let close = p.subrange(end, end + 1);
    assert(p =~= prefix + open + options + close + suffix);
    lemma_count_concat(prefix + open + options + close, suffix, '{');
    lemma_count_concat(prefix + open + options, close, '{');
    lemma_count_concat(prefix + open, options, '{');
    lemma_count_concat(prefix, open, '{');
    assert(open.drop_last() =~= Seq::<char>::empty());
    assert(open.last() == '{');
    assert(close.drop_last() =~= Seq::<char>::empty());
    assert(close.last() == '}');
    assert(count_of(Seq::<char>::empty(), '{') == 0);
    assert(count_of(open, '{') == count_of(open.drop_last(), '{') + 1);
    assert(count_of(close, '{') == count_of(close.drop_last(), '{'));
    lemma_no_char_count(prefix, '{');
}

/// Without a `{`, or without a `}` after the first `{` (at `start`), a
/// pattern expands to itself.
proof fn lemma_expansion_no_group(p: Seq<char>, start: int)
    requires
        0 <= start <= p.len(),
        forall|j: int| 0 <= j < start ==> p[j] != '{',
        start < p.len() ==> p[start] == '{' && forall|j: int| start <= j < p.len() ==> p[j] != '}',
    ensures
        expansion(p) == seq![p],
{
    if start < p.len() {
        lemma_first_index(p, '{', start);
        let tail = p.subrange(start, p.len() as int);
        assert(forall|j: int| 0 <= j < tail.len() ==> tail[j] == p[start + j]);
        assert(first_index_of(tail, '}') is None);
    } else {
        assert(first_index_of(p, '{') is None);
    }
}

/// With a brace group, a pattern expands to the expansions of its options.
proof fn lemma_expansion_group(p: Seq<char>, prefix: Seq<char>, options: Seq<char>, suffix: Seq<char>)
    requires
        brace_group(p) == Some((prefix, options, suffix)),
    ensures
        expansion(p) == expansion_of_options(count_of(p, '{'), prefix, split_on(options, ','), suffix),
{
}

/// An option taken from the first brace group, put back between the text
/// before and after the group, gives a pattern with fewer `{`.
proof fn lemma_option_count(p: Seq<char>, start: int, end: int, a: int, b: int)
    requires
        0 <= start <= end < p.len(),
        start + 1 <= a <= b <= end,
        count_of(p.subrange(0, start), '{') == 0,
        count_of(p, '{') == count_of(p.subrange(0, start), '{') + 1 + count_of(p.subrange(start + 1, end), '{')
            + count_of(p.subrange(end + 1, p.len() as int), '{'),
    ensures
        count_of(p.subrange(0, start) + p.subrange(a, b) + p.subrange(end + 1, p.len() as int), '{') < count_of(p, '{'),
{
    let prefix = p.subrange(0, start);
    let options = p.subrange(start + 1, end);
    let suffix = p.subrange(end + 1, p.len() as int);
    let o = p.subrange(a, b);
    lemma_count_concat(prefix + o, suffix, '{');
    lemma_count_concat(prefix, o, '{');
    assert(options.subrange(a - start - 1, b - start - 1) =~= o);
    lemma_count_subrange(options, a - start - 1, b - start - 1, '{');
}

/// One more option adds its expansion at the end.
proof fn lemma_expansion_step(bound: nat, prefix: Seq<char>, opts: Seq<Seq<char>>, suffix: Seq<char>, k: int)
    requires
        0 <= k < opts.len(),
        count_of(prefix + opts[k] + suffix, '{') < bound,
    ensures
        expansion_of_options(bound, prefix, opts.take(k + 1), suffix) == expansion_of_options(
            bound,
            prefix,
            opts.take(k),
            suffix,
        ) + expansion(prefix + opts[k] + suffix),
{
    let t = opts.take(k + 1);
    assert(t.drop_last() =~= opts.take(k));
    assert(t.last() == opts[k]);
}

proof fn lemma_no_char_count(s: Seq<char>, c: char)
    requires
        forall|j: int| 0 <= j < s.len() ==> s[j] != c,
    ensures
        count_of(s, c) == 0,
    decreases s.len(),
{
    if s.len() > 0 {
        lemma_no_char_count(s.drop_last(), c);
    }
}

} // verus!

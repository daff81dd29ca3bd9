//! Ignore patterns: glob sets built from default and user patterns, matching
//! of paths against them, and conversion of gitignore lines into globs.
use vstd::prelude::*;
use crate::text::{push_str, to_owned_string};
use globset::Error as GlobsetError;

verus! {

#[verifier::external_type_specification]
#[verifier::external_body]
pub struct ExGlob(globset::Glob);

#[verifier::external_type_specification]
#[verifier::external_body]
pub struct ExGlobSetBuilder(globset::GlobSetBuilder);

#[verifier::external_type_specification]
#[verifier::external_body]
pub struct ExGlobSet(globset::GlobSet);

#[verifier::external_type_specification]
#[verifier::external_body]
pub struct ExGlobError(GlobsetError);

/// Whether globset accepts `pattern` as a glob with default options.
pub uninterp spec fn glob_accepts(pattern: Seq<char>) -> bool;

/// The pattern text a glob was built from.
pub uninterp spec fn glob_source(g: globset::Glob) -> Seq<char>;

/// The patterns added to a glob set builder, in order.
pub uninterp spec fn builder_patterns(b: globset::GlobSetBuilder) -> Seq<Seq<char>>;

/// The pattern texts of the globs a glob set was compiled from, in the order
/// they were added.
pub uninterp spec fn set_patterns(s: globset::GlobSet) -> Seq<Seq<char>>;

/// Whether a glob was built with globset's default options (as
/// `Glob::new` builds it).
pub uninterp spec fn glob_default(g: globset::Glob) -> bool;

/// Whether every glob added to a builder was built with default options.
pub uninterp spec fn builder_default(b: globset::GlobSetBuilder) -> bool;

/// Whether globset compiles default-option globs of these patterns, in this
/// order, into a set (compilation fails only on size limits of the
/// underlying regular expressions).
pub uninterp spec fn globs_compile(patterns: Seq<Seq<char>>) -> bool;

/// Whether the glob `pattern`, compiled with default options, matches `path`
/// (a Unix path; globset matches on the path's bytes with `/` as separator).
pub uninterp spec fn glob_matches(pattern: Seq<char>, path: Seq<char>) -> bool;

/// `globset::Glob::new`: builds a glob with default options. It succeeds
/// exactly on the patterns globset accepts, and the glob keeps its source text
/// (`Glob::glob` returns it).
#[verifier::external_body]
fn new_glob(pattern: &str) -> (r: Result<globset::Glob, globset::Error>)
    ensures
        r is Ok <==> glob_accepts(pattern@),
        r matches Ok(g) ==> glob_source(g) == pattern@ && glob_default(g),
{
    globset::Glob::new(pattern)
}

/// `globset::GlobSetBuilder::new`: a builder with no patterns.
#[verifier::external_body]
fn new_builder() -> (b: globset::GlobSetBuilder)
    ensures
        builder_patterns(b) == Seq::<Seq<char>>::empty(),
        builder_default(b),
{
    globset::GlobSetBuilder::new()
}

/// `globset::GlobSetBuilder::add`: appends a glob to the builder.
#[verifier::external_body]
fn builder_add(b: &mut globset::GlobSetBuilder, g: globset::Glob)
    ensures
        builder_patterns(*final(b)) == builder_patterns(*old(b)).push(glob_source(g)),
        builder_default(*final(b)) == (builder_default(*old(b)) && glob_default(g)),
{
    b.add(g);
}

/// A compiled set of ignore globs. Only `IgnorePatternBuilder` makes one, from
/// globs built with default options.
#[derive(Debug)]
pub struct IgnoreSet {
    set: globset::GlobSet,
}

impl IgnoreSet {
    /// The patterns of the set's globs, numbered in the order they were added.
    pub closed spec fn patterns(&self) -> Seq<Seq<char>> {
        set_patterns(self.set)
    }
}

/// `globset::GlobSetBuilder::build`: compiles the added globs into a set that
/// numbers them in the order they were added; whether it compiles depends on
/// the patterns alone.
#[verifier::external_body]
fn builder_build(b: &globset::GlobSetBuilder) -> (r: Result<IgnoreSet, globset::Error>)
    requires
        builder_default(*b),
    ensures
        r is Ok <==> globs_compile(builder_patterns(*b)),
        r matches Ok(s) ==> set_patterns(s.set) == builder_patterns(*b),
{
    match b.build() {
        Ok(set) => Ok(IgnoreSet { set }),
        Err(e) => Err(e),
    }
}

/// `globset::GlobSet::matches`: the numbers of the set's globs that match the
/// path, in ascending order, each once.
#[verifier::external_body]
fn set_matches(s: &IgnoreSet, path: &str) -> (r: Vec<usize>)
    ensures
        forall|i: int, j: int| 0 <= i < j < r@.len() ==> r@[i] < r@[j],
        forall|i: int| 0 <= i < r@.len() ==> (#[trigger] r@[i]) < set_patterns(s.set).len(),
        forall|k: int|
            0 <= k < set_patterns(s.set).len() ==> (r@.contains(k as usize) <==> glob_matches(
                #[trigger] set_patterns(s.set)[k],
                path@,
            )),
{
    s.set.matches(std::path::Path::new(path))
}

/// `globset::GlobSet::is_match`: whether any glob of the set matches the path.
#[verifier::external_body]
fn set_is_match(s: &IgnoreSet, path: &str) -> (r: bool)
    ensures
        r == (exists|k: int|
            0 <= k < set_patterns(s.set).len() && glob_matches(#[trigger] set_patterns(s.set)[k], path@)),
{
    s.set.is_match(std::path::Path::new(path))
}

/// Errors from building ignore patterns.
#[derive(Debug)]
pub enum IgnoreError {
    /// A pattern is not a valid glob.
    InvalidPattern(globset::Error),
    /// The glob set could not be compiled.
    Build(globset::Error),
}

/// The patterns ignored by default: build outputs, dependencies, version
/// control and cache directories.
pub open spec fn default_ignore_patterns() -> Seq<Seq<char>> {
    seq![
        "**/node_modules/**"@,
        "**/.git/**"@,
        "**/.next/**"@,
        "**/dist/**"@,
        "**/build/**"@,
        "**/out/**"@,
        "**/.dist/**"@,
        "**/_dist/**"@,
        "**/.cache/**"@,
        "**/cache/**"@,
        "**/coverage/**"@,
        "**/.nyc_output/**"@,
        "**/.turbo/**"@,
    ]
}

/// The default ignore patterns, in order.
pub fn default_patterns() -> (r: Vec<String>)
    ensures
        r@.len() == default_ignore_patterns().len(),
        forall|i: int| 0 <= i < r@.len() ==> #[trigger] r@[i]@ == default_ignore_patterns()[i],
{
    let v = vec![
        to_owned_string("**/node_modules/**"),
        to_owned_string("**/.git/**"),
        to_owned_string("**/.next/**"),
        to_owned_string("**/dist/**"),
        to_owned_string("**/build/**"),
        to_owned_string("**/out/**"),
        to_owned_string("**/.dist/**"),
        to_owned_string("**/_dist/**"),
        to_owned_string("**/.cache/**"),
        to_owned_string("**/cache/**"),
        to_owned_string("**/coverage/**"),
        to_owned_string("**/.nyc_output/**"),
        to_owned_string("**/.turbo/**"),
    ];
    v
}

/// The texts of a sequence of strings.
pub open spec fn texts(v: Seq<String>) -> Seq<Seq<char>> {
    v.map_values(|s: String| s@)
}

/// Whether globset accepts every one of the patterns.
pub open spec fn all_accepted(patterns: Seq<Seq<char>>) -> bool {
    forall|i: int| 0 <= i < patterns.len() ==> glob_accepts(#[trigger] patterns[i])
}

/// Metadata about an ignore pattern: its number in the glob set and its text.
#[derive(Debug, Clone)]
pub struct PatternInfo {
    pub index: usize,
    pub pattern: String,
}

/// Builder for creating ignore pattern sets.
pub struct IgnorePatternBuilder {
    patterns: Vec<String>,
    use_defaults: bool,
}

impl IgnorePatternBuilder {
    /// The user patterns added so far, in order.
    pub closed spec fn user_patterns(&self) -> Seq<Seq<char>> {
        texts(self.patterns@)
    }

    /// Whether the default patterns will be included.
    pub closed spec fn uses_defaults(&self) -> bool {
        self.use_defaults
    }

    /// The patterns the built set holds: when defaults are used, each default
    /// is put in front in turn (so they come in reverse order), followed by
    /// the user patterns.
    pub open spec fn effective_patterns(&self) -> Seq<Seq<char>> {
        if self.uses_defaults() {
            default_ignore_patterns().reverse() + self.user_patterns()
        } else {
            self.user_patterns()
        }
    }

    /// A builder with no user patterns and the defaults enabled.
    pub fn new() -> (b: Self)
        ensures
            b.user_patterns() == Seq::<Seq<char>>::empty(),
            b.uses_defaults(),
    {
        let b = IgnorePatternBuilder { patterns: Vec::new(), use_defaults: true };
        assert(texts(b.patterns@) =~= Seq::<Seq<char>>::empty());
        b
    }

    /// Disables the default ignore patterns.
    pub fn no_defaults(self) -> (b: Self)
        ensures
            b.user_patterns() == self.user_patterns(),
            !b.uses_defaults(),
    {
        IgnorePatternBuilder { patterns: self.patterns, use_defaults: false }
    }

    /// Adds a user pattern after checking that it is a valid glob.
    pub fn add_pattern(self, pattern: &str) -> (r: Result<Self, IgnoreError>)
        ensures
            match r {
                Ok(b) => glob_accepts(pattern@) && b.user_patterns() == self.user_patterns().push(pattern@)
                    && b.uses_defaults() == self.uses_defaults(),
                Err(e) => !glob_accepts(pattern@) && e is InvalidPattern,
            },
    {
        match new_glob(pattern) {
            Err(e) => Err(IgnoreError::InvalidPattern(e)),
            Ok(_) => {
                let mut patterns = self.patterns;
                let ghost before = patterns@;
                patterns.push(to_owned_string(pattern));
                proof {
                    assert(texts(patterns@) =~= texts(before).push(pattern@));
                }
                Ok(IgnorePatternBuilder { patterns, use_defaults: self.use_defaults })
            },
        }
    }

    /// Adds user patterns in order, checking each; fails on the first that is
    /// not a valid glob.
    pub fn add_patterns(self, patterns: &Vec<String>) -> (r: Result<Self, IgnoreError>)
        ensures
            match r {
                Ok(b) => (forall|i: int| 0 <= i < patterns@.len() ==> glob_accepts(#[trigger] patterns@[i]@))
                    && b.user_patterns() == self.user_patterns() + texts(patterns@)
                    && b.uses_defaults() == self.uses_defaults(),
                Err(e) => e is InvalidPattern && exists|i: int|
                    0 <= i < patterns@.len() && !glob_accepts(#[trigger] patterns@[i]@) && forall|j: int|
                        0 <= j < i ==> glob_accepts(#[trigger] patterns@[j]@),
            },
    {
        let mut own = self.patterns;
        let use_defaults = self.use_defaults;
        let ghost start = texts(own@);
        let mut i: usize = 0;
        while i < patterns.len()
            invariant
                i <= patterns@.len(),
                forall|j: int| 0 <= j < i ==> glob_accepts(#[trigger] patterns@[j]@),
                texts(own@) == start + texts(patterns@.take(i as int)),
            decreases patterns@.len() - i,
        {
            let p = &patterns[i];
            match new_glob(p.as_str()) {
                Err(e) => {
                    proof {
                        assert(!glob_accepts(patterns@[i as int]@));
                    }
                    return Err(IgnoreError::InvalidPattern(e));
                },
                Ok(_) => {},
            }
            let ghost before = own@;
            own.push(p.clone());
            proof {
                assert(patterns@.take(i + 1) =~= patterns@.take(i as int).push(*p));
                assert(texts(own@) =~= texts(before).push(p@));
                assert(texts(patterns@.take(i + 1)) =~= texts(patterns@.take(i as int)).push(p@));
            }
            i = i + 1;
        }
        proof {
            assert(patterns@.take(patterns@.len() as int) =~= patterns@);
        }
        Ok(IgnorePatternBuilder { patterns: own, use_defaults })
    }

    /// Builds the glob set.
    pub fn build(self) -> (r: Result<IgnoreSet, IgnoreError>)
        ensures
            match r {
                Ok(s) => all_accepted(self.effective_patterns()) && globs_compile(self.effective_patterns())
                    && s.patterns() == self.effective_patterns(),
                Err(e) => if all_accepted(self.effective_patterns()) {
                    e is Build && !globs_compile(self.effective_patterns())
                } else {
                    e is InvalidPattern
                },
            },
    {
        match self.build_with_metadata() {
            Ok((s, _)) => Ok(s),
            Err(e) => Err(e),
        }
    }

    /// Builds the glob set along with the number and text of each pattern.
    pub fn build_with_metadata(self) -> (r: Result<(IgnoreSet, Vec<PatternInfo>), IgnoreError>)
        ensures
            match r {
                Ok((s, infos)) => {
                    &&& all_accepted(self.effective_patterns())
                    &&& globs_compile(self.effective_patterns())
                    &&& s.patterns() == self.effective_patterns()
                    &&& infos@.len() == self.effective_patterns().len()
                    &&& forall|i: int|
                        0 <= i < infos@.len() ==> (#[trigger] infos@[i]).index == i && infos@[i].pattern@
                            == self.effective_patterns()[i]
                },
                Err(e) => if all_accepted(self.effective_patterns()) {
                    e is Build && !globs_compile(self.effective_patterns())
                } else {
                    e is InvalidPattern
                },
            },
    {
        let ghost effective = self.effective_patterns();
        let mut patterns = self.patterns;
        if self.use_defaults {
            let defaults = default_patterns();
            let mut d: usize = 0;
            while d < defaults.len()
                invariant
                    d <= defaults@.len(),
                    defaults@.len() == default_ignore_patterns().len(),
                    forall|i: int| 0 <= i < defaults@.len() ==> #[trigger] defaults@[i]@ == default_ignore_patterns()[i],
                    texts(patterns@) == default_ignore_patterns().take(d as int).reverse() + texts(self.patterns@),
                decreases defaults@.len() - d,
            {
                let ghost before = patterns@;
                patterns.insert(0, defaults[d].clone());
                proof {
                    let dd = default_ignore_patterns();
                    assert(dd.take(d + 1) =~= dd.take(d as int).push(dd[d as int]));
                    assert(dd.take(d + 1).reverse() =~= seq![dd[d as int]] + dd.take(d as int).reverse());
                    assert(texts(patterns@) =~= seq![dd[d as int]] + texts(before));
                }
                d = d + 1;
            }
            proof {
                assert(default_ignore_patterns().take(13) =~= default_ignore_patterns());
            }
        }
        assert(texts(patterns@) == effective);
        let mut builder = new_builder();
        let mut infos: Vec<PatternInfo> = Vec::new();
        let mut idx: usize = 0;
        while idx < patterns.len()
            invariant
                idx <= patterns@.len(),
                texts(patterns@) == effective,
                effective == self.effective_patterns(),
                builder_patterns(builder) == effective.take(idx as int),
                builder_default(builder),
                forall|j: int| 0 <= j < idx ==> glob_accepts(#[trigger] effective[j]),
                infos@.len() == idx,
                forall|j: int| 0 <= j < idx ==> (#[trigger] infos@[j]).index == j && infos@[j].pattern@ == effective[j],
            decreases patterns@.len() - idx,
        {
            let p = &patterns[idx];
            assert(p@ == effective[idx as int]);
            let g = match new_glob(p.as_str()) {
                Ok(g) => g,
                Err(e) => {
                    proof {
                        assert(!glob_accepts(effective[idx as int]));
                    }
                    return Err(IgnoreError::InvalidPattern(e));
                },
            };
            builder_add(&mut builder, g);
            infos.push(PatternInfo { index: idx, pattern: p.clone() });
            proof {
                assert(effective.take(idx + 1) =~= effective.take(idx as int).push(effective[idx as int]));
            }
            idx = idx + 1;
        }
        proof {
            assert(effective.take(effective.len() as int) =~= effective);
        }
        match builder_build(&builder) {
            Ok(s) => Ok((s, infos)),
            Err(e) => Err(IgnoreError::Build(e)),
        }
    }
}

/// Whether a path should be ignored: some glob of the set matches it.
pub fn should_ignore(path: &str, ignore_set: &IgnoreSet) -> (r: bool)
    ensures
        r == exists|k: int|
            0 <= k < ignore_set.patterns().len() && glob_matches(#[trigger] ignore_set.patterns()[k], path@),
{
    set_is_match(ignore_set, path)
}

/// The lowest number of a glob of the set that matches the path.
pub open spec fn first_matching(s: IgnoreSet, path: Seq<char>, k: int) -> bool {
    &&& 0 <= k < s.patterns().len()
    &&& glob_matches(s.patterns()[k], path)
    &&& forall|j: int| 0 <= j < k ==> !glob_matches(#[trigger] s.patterns()[j], path)
}

/// The pattern metadata entry of the lowest-numbered glob of the set that
/// matches the path: its text, or `None` when no glob matches or the metadata
/// has no entry at that position.
pub open spec fn matched_pattern(s: IgnoreSet, infos: Seq<PatternInfo>, path: Seq<char>) -> Option<String> {
    if exists|k: int| first_matching(s, path, k) && k < infos.len() {
        Some(infos[choose|k: int| first_matching(s, path, k) && k < infos.len()].pattern)
    } else {
        None
    }
}

/// The text of the lowest-numbered glob that matches the path, looked up in
/// the pattern metadata; `None` when no glob matches or the metadata has no
/// entry at that position.
pub fn match_with_pattern(path: &str, ignore_set: &IgnoreSet, pattern_infos: &Vec<PatternInfo>) -> (r: Option<String>)
    ensures
        r == matched_pattern(*ignore_set, pattern_infos@, path@),
{
    let matches = set_matches(ignore_set, path);
    if matches.len() == 0 {
        proof {
            assert forall|k: int| first_matching(*ignore_set, path@, k) implies k >= pattern_infos@.len() by {
                assert(matches@.contains(k as usize));
            }
        }
        None
    } else {
        let first = matches[0];
        proof {
            let k = first as int;
            assert(matches@.contains(first));
            assert forall|j: int| 0 <= j < k implies !glob_matches(#[trigger] ignore_set.patterns()[j], path@) by {
                if glob_matches(ignore_set.patterns()[j], path@) {
                    assert(matches@.contains(j as usize));
                    let q = choose|q: int| 0 <= q < matches@.len() && matches@[q] == j as usize;
                    if q > 0 {
                        assert(matches@[0] < matches@[q]);
                    }
                }
            }
            assert(first_matching(*ignore_set, path@, k));
            assert forall|k2: int| first_matching(*ignore_set, path@, k2) implies k2 == k by {
                if k2 < k {
                } else if k2 > k {
                    assert(!glob_matches(ignore_set.patterns()[k], path@));
                }
            }
        }
        if first < pattern_infos.len() {
            proof {
                let c = choose|k: int| first_matching(*ignore_set, path@, k) && k < pattern_infos@.len();
                assert(first_matching(*ignore_set, path@, first as int) && (first as int) < pattern_infos@.len());
                assert(c == first as int);
            }
            Some(pattern_infos[first].pattern.clone())
        } else {
            None
        }
    }
}

/// A Unicode `White_Space` character, as `char::is_whitespace` defines it.
pub open spec fn is_white_space(c: char) -> bool {
    let u = c as u32;
    (0x09 <= u && u <= 0x0D) || u == 0x20 || u == 0x85 || u == 0xA0 || u == 0x1680 || (0x2000 <= u
        && u <= 0x200A) || u == 0x2028 || u == 0x2029 || u == 0x202F || u == 0x205F || u == 0x3000
}

fn white_space(c: char) -> (r: bool)
    ensures
        r == is_white_space(c),
{
    let u = c as u32;
    (0x09 <= u && u <= 0x0D) || u == 0x20 || u == 0x85 || u == 0xA0 || u == 0x1680 || (0x2000 <= u
        && u <= 0x200A) || u == 0x2028 || u == 0x2029 || u == 0x202F || u == 0x205F || u == 0x3000
}

/// `s` without leading and trailing white space (`str::trim`).
pub open spec fn trimmed(s: Seq<char>) -> Seq<char>
    decreases s.len(),
{
    if s.len() > 0 && is_white_space(s[0]) {
        trimmed(s.drop_first())
    } else if s.len() > 0 && is_white_space(s.last()) {
        trimmed(s.drop_last())
    } else {
        s
    }
}

/// `s` without trailing slashes (`str::trim_end_matches('/')`).
pub open spec fn without_trailing_slashes(s: Seq<char>) -> Seq<char>
    decreases s.len(),
{
    if s.len() > 0 && s.last() == '/' {
        without_trailing_slashes(s.drop_last())
    } else {
        s
    }
}

/// The glob for a gitignore pattern: negations (`!`) are not supported and
/// give the empty pattern; a root-anchored `/pattern` becomes `pattern`, which
/// matches at the root only; any other pattern, with or without inner slashes, becomes `**/pattern`.
/// Surrounding white space and trailing slashes are dropped first.
pub open spec fn gitignore_glob(pattern: Seq<char>) -> Seq<char> {
    let p = without_trailing_slashes(trimmed(pattern));
    if p.len() > 0 && p[0] == '!' {
        Seq::empty()
    } else if p.len() > 0 && p[0] == '/' {
        p.drop_first()
    } else {
        "**/"@ + p
    }
}

/// The characters of `s` from `start` to `end`, as a string.
fn slice_string(cs: &Vec<char>, start: usize, end: usize) -> (r: String)
    requires
        start <= end <= cs@.len(),
    ensures
        r@ == cs@.subrange(start as int, end as int),
{
    let mut r = String::new();
    let mut i = start;
    while i < end
        invariant
            start <= i <= end,
            end <= cs@.len(),
            r@ == cs@.subrange(start as int, i as int),
        decreases end - i,
    {
        crate::text::push_char(&mut r, cs[i]);
        proof {
            assert(cs@.subrange(start as int, i + 1) =~= cs@.subrange(start as int, i as int).push(cs@[i as int]));
        }
        i = i + 1;
    }
    r
}

proof fn lemma_trimmed_range(s: Seq<char>, a: int, b: int)
    requires
        0 <= a <= b <= s.len(),
        forall|i: int| 0 <= i < a ==> is_white_space(#[trigger] s[i]),
        forall|i: int| b <= i < s.len() ==> is_white_space(#[trigger] s[i]),
        a < b ==> !is_white_space(s[a]) && !is_white_space(s[b - 1]),
    ensures
        trimmed(s) == s.subrange(a, b),
    decreases s.len(),
{
    if a > 0 {
        assert(s.drop_first().subrange(a - 1, b - 1) =~= s.subrange(a, b));
        lemma_trimmed_range(s.drop_first(), a - 1, b - 1);
    } else if b < s.len() {
        if s.len() > 0 && is_white_space(s[0]) {
            assert(a == b);
            assert(s.drop_first().subrange(0, 0) =~= s.subrange(a, b));
            assert forall|i: int| 0 <= i < s.drop_first().len() implies is_white_space(#[trigger] s.drop_first()[i]) by {
                assert(s.drop_first()[i] == s[i + 1]);
            }
            lemma_trimmed_range(s.drop_first(), 0, 0);
        } else {
            assert(s.drop_last().subrange(a, b) =~= s.subrange(a, b));
            lemma_trimmed_range(s.drop_last(), a, b);
        }
    } else {
        assert(s.subrange(0, s.len() as int) =~= s);
        if s.len() > 0 {
            assert(b > 0);
        }
    }
}

/// The bounds of `cs` without leading and trailing white space.
fn trim_bounds(cs: &Vec<char>) -> (r: (usize, usize))
    ensures
        r.0 <= r.1 <= cs@.len(),
        trimmed(cs@) == cs@.subrange(r.0 as int, r.1 as int),
{
    let n = cs.len();
    let mut a: usize = 0;
    while a < n && white_space(cs[a])
        invariant
            a <= n,
            n == cs@.len(),
            forall|i: int| 0 <= i < a ==> is_white_space(#[trigger] cs@[i]),
        decreases n - a,
    {
        a = a + 1;
    }
    let mut b: usize = n;
    while b > a && white_space(cs[b - 1])
        invariant
            a <= b <= n,
            n == cs@.len(),
            forall|i: int| b <= i < n ==> is_white_space(#[trigger] cs@[i]),
        decreases b - a,
    {
        b = b - 1;
    }
    proof {
        if a < b {
            assert(!is_white_space(cs@[a as int]));
        }
        lemma_trimmed_range(cs@, a as int, b as int);
    }
    (a, b)
}

/// A string without leading and trailing white space (`str::trim`).
pub fn trim_text(s: &str) -> (r: String)
    ensures
        r@ == trimmed(s@),
{
    let cs = crate::text::chars_of(s);
    let (a, b) = trim_bounds(&cs);
    slice_string(&cs, a, b)
}

/// Converts a gitignore pattern to a glob pattern.
pub fn gitignore_to_glob_pattern(pattern: &str) -> (r: String)
    ensures
        r@ == gitignore_glob(pattern@),
{
    let cs = crate::text::chars_of(pattern);
    let (a, b) = trim_bounds(&cs);
    let ghost t = cs@.subrange(a as int, b as int);
    let mut e: usize = b;
    while e > a && cs[e - 1] == '/'
        invariant
            a <= e <= b,
            b <= cs@.len(),
            t == cs@.subrange(a as int, b as int),
            without_trailing_slashes(t) == without_trailing_slashes(cs@.subrange(a as int, e as int)),
        decreases e - a,
    {
        proof {
            let u = cs@.subrange(a as int, e as int);
            assert(u.drop_last() =~= cs@.subrange(a as int, e - 1));
        }
        e = e - 1;
    }
    let ghost p = cs@.subrange(a as int, e as int);
    assert(without_trailing_slashes(t) == p) by {
        if p.len() > 0 {
            assert(p.last() == cs@[e - 1]);
        }
    }
    if e > a && cs[a] == '!' {
        proof {
            assert(p[0] == '!');
        }
        String::new()
    } else if e > a && cs[a] == '/' {
        let r = slice_string(&cs, a + 1, e);
        proof {
            assert(p.drop_first() =~= cs@.subrange(a + 1, e as int));
        }
        r
    } else {
        let rest = slice_string(&cs, a, e);
        let mut r = to_owned_string("**/");
        push_str(&mut r, rest.as_str());
        r
    }
}

/// The pieces of `s` between newline characters, in order (one piece when
/// there is no newline).
pub open spec fn split_lines(s: Seq<char>) -> Seq<Seq<char>>
    decreases s.len(),
{
    if s.len() == 0 {
        seq![Seq::empty()]
    } else if s.last() == '\n' {
        split_lines(s.drop_last()).push(Seq::empty())
    } else {
        let prev = split_lines(s.drop_last());
        prev.update(prev.len() - 1, prev.last().push(s.last()))
    }
}

proof fn lemma_split_lines_nonempty(s: Seq<char>)
    ensures
        split_lines(s).len() > 0,
    decreases s.len(),
{
    if s.len() > 0 {
        lemma_split_lines_nonempty(s.drop_last());
    }
}

/// A gitignore line yields a pattern unless, trimmed, it is empty or a comment.
pub open spec fn gitignore_line_used(line: Seq<char>) -> bool {
    trimmed(line).len() > 0 && trimmed(line)[0] != '#'
}

/// The glob patterns of the used lines, in order.
pub open spec fn gitignore_globs(lines: Seq<Seq<char>>) -> Seq<Seq<char>>
    decreases lines.len(),
{
    if lines.len() == 0 {
        Seq::empty()
    } else if gitignore_line_used(lines.last()) {
        gitignore_globs(lines.drop_last()).push(gitignore_glob(lines.last()))
    } else {
        gitignore_globs(lines.drop_last())
    }
}

/// The glob for one gitignore line, if the line is used.
fn gitignore_line(line: &Vec<char>) -> (r: Option<String>)
    ensures
        match r {
            Some(g) => gitignore_line_used(line@) && g@ == gitignore_glob(line@),
            None => !gitignore_line_used(line@),
        },
{
    let (a, b) = trim_bounds(line);
    if a == b || line[a] == '#' {
        None
    } else {
        let text = crate::text::string_from_chars(line);
        Some(gitignore_to_glob_pattern(text.as_str()))
    }
}

/// The glob patterns of a .gitignore file's text: each line, trimmed, that is
/// neither empty nor a comment becomes a glob.
pub fn parse_gitignore_content(content: &str) -> (r: Vec<String>)
    ensures
        texts(r@) == gitignore_globs(split_lines(content@)),
{
    let cs = crate::text::chars_of(content);
    let mut out: Vec<String> = Vec::new();
    let mut line: Vec<char> = Vec::new();
    let mut i: usize = 0;
    proof {
        lemma_split_lines_nonempty(cs@.take(0));
        assert(cs@.take(0) =~= Seq::<char>::empty());
        assert(split_lines(Seq::<char>::empty()) =~= seq![Seq::<char>::empty()]);
        assert(texts(out@) =~= Seq::<Seq<char>>::empty());
    }
    while i < cs.len()
        invariant
            i <= cs@.len(),
            split_lines(cs@.take(i as int)).len() > 0,
            line@ == split_lines(cs@.take(i as int)).last(),
            texts(out@) == gitignore_globs(split_lines(cs@.take(i as int)).drop_last()),
        decreases cs@.len() - i,
    {
        let c = cs[i];
        let ghost prefix = cs@.take(i as int);
        proof {
            assert(cs@.take(i + 1).drop_last() =~= prefix);
            assert(cs@.take(i + 1).last() == c);
            lemma_split_lines_nonempty(prefix);
        }
        if c == '\n' {
            let ghost before = out@;
            match gitignore_line(&line) {
                Some(g) => {
                    out.push(g);
                },
                None => {},
            }
            proof {
                let lines = split_lines(prefix);
                assert(lines.drop_last().push(lines.last()) =~= lines);
                assert(split_lines(cs@.take(i + 1)).drop_last() =~= lines);
                assert(texts(out@) =~= gitignore_globs(lines));
            }
            line = Vec::new();
            proof {
                assert(line@ =~= Seq::<char>::empty());
            }
        } else {
            line.push(c);
            proof {
                let lines = split_lines(prefix);
                let next = split_lines(cs@.take(i + 1));
                assert(next =~= lines.update(lines.len() - 1, lines.last().push(c)));
                assert(next.drop_last() =~= lines.drop_last());
            }
        }
        i = i + 1;
    }
    proof {
        assert(cs@.take(cs@.len() as int) =~= cs@);
    }
    let ghost before = out@;
    match gitignore_line(&line) {
        Some(g) => {
            out.push(g);
        },
        None => {},
    }
    proof {
        let lines = split_lines(cs@);
        assert(lines.drop_last().push(lines.last()) =~= lines);
        assert(texts(out@) =~= gitignore_globs(lines));
    }
    out
}

impl Default for IgnorePatternBuilder {
    /// No user patterns, defaults enabled.
    fn default() -> (b: Self)
        ensures
            b.user_patterns() == Seq::<Seq<char>>::empty(),
            b.uses_defaults(),
    {
        IgnorePatternBuilder::new()
    }
}

} // verus!

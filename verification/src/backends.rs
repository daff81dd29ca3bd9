//! Language backends: the registry that picks one by file extension or by name,
//! and the JavaScript backend's description and entry-point check.
use vstd::prelude::*;
use crate::error::Error;
use crate::ignore::texts;
use crate::paths::{path_file_name, path_file_name_of};
use crate::text::{chars_of, push_str, str_eq, string_from_chars, to_owned_string};

verus! {

broadcast use vstd::seq_lib::group_seq_properties;

/// What the registry knows of a backend: its name and the extensions it handles
/// (each with its dot, such as ".js").
#[derive(Debug, Clone)]
pub struct BackendInfo {
    pub name: String,
    pub extensions: Vec<String>,
}

/// The code of a character with ASCII capitals lowered.
pub open spec fn ascii_lower_code(c: char) -> u32 {
    if 'A' <= c <= 'Z' {
        (c as u32 + 32) as u32
    } else {
        c as u32
    }
}

/// Two texts are equal when ASCII letters are compared without case
/// (`str::eq_ignore_ascii_case`).
pub open spec fn same_ignoring_ascii_case(a: Seq<char>, b: Seq<char>) -> bool {
    a.len() == b.len() && forall|i: int| 0 <= i < a.len() ==> ascii_lower_code(#[trigger] a[i]) == ascii_lower_code(b[i])
}

fn lower_code(c: char) -> (r: u32)
    ensures
        r == ascii_lower_code(c),
{
    if 'A' <= c && c <= 'Z' {
        c as u32 + 32
    } else {
        c as u32
    }
}

/// `str::eq_ignore_ascii_case`.
pub fn eq_ignore_case(a: &str, b: &str) -> (r: bool)
    ensures
        r == same_ignoring_ascii_case(a@, b@),
{
    let x = chars_of(a);
    let y = chars_of(b);
    if x.len() != y.len() {
        return false;
    }
    let mut i: usize = 0;
    while i < x.len()
        invariant
            x@ == a@,
            y@ == b@,
            x@.len() == y@.len(),
            i <= x@.len(),
            forall|j: int| 0 <= j < i ==> ascii_lower_code(#[trigger] x@[j]) == ascii_lower_code(y@[j]),
        decreases x@.len() - i,
    {
        if lower_code(x[i]) != lower_code(y[i]) {
            return false;
        }
        i = i + 1;
    }
    true
}

/// The first backend in the list whose predicate holds.
pub open spec fn first_where(backends: Seq<BackendInfo>, p: spec_fn(BackendInfo) -> bool) -> Option<int>
    decreases backends.len(),
{
    if backends.len() == 0 {
        None
    } else if p(backends[0]) {
        Some(0)
    } else {
        match first_where(backends.drop_first(), p) {
            Some(i) => Some(i + 1),
            None => None,
        }
    }
}

/// The backend handles the extension.
pub open spec fn handles(b: BackendInfo, extension: Seq<char>) -> bool {
    exists|i: int| 0 <= i < b.extensions@.len() && #[trigger] b.extensions@[i]@ == extension
}

/// Registry of language backends, in registration order.
pub struct BackendRegistry {
    backends: Vec<BackendInfo>,
}

impl BackendRegistry {
    /// The registered backends, in registration order.
    pub closed spec fn registered(&self) -> Seq<BackendInfo> {
        self.backends@
    }

    /// An empty registry.
    pub fn new() -> (r: Self)
        ensures
            r.registered() == Seq::<BackendInfo>::empty(),
    {
        BackendRegistry { backends: Vec::new() }
    }

    /// Registers a backend after the ones already registered.
    pub fn register(&mut self, backend: BackendInfo)
        ensures
            final(self).registered() == old(self).registered().push(backend),
    {
        self.backends.push(backend);
    }

    /// The backend for an analysis, chosen by the extension of its first entry
    /// point (with its dot; empty when it has none). Fails naming that
    /// extension when no registered backend handles it.
    pub fn find_for_entry_point(&self, entry_point: &str) -> (r: Result<&BackendInfo, String>)
        ensures
            match first_where(self.registered(), |b: BackendInfo| handles(b, dotted_extension(entry_point@))) {
                Some(i) => r == Ok::<&BackendInfo, String>(&self.registered()[i]),
                None => r matches Err(m) && m@ == "No backend found for extension: "@ + dotted_extension(entry_point@),
            },
    {
        let ext = dotted_extension_of(entry_point);
        match self.find_by_extension(ext.as_str()) {
            Some(b) => Ok(b),
            None => {
                let mut m = to_owned_string("No backend found for extension: ");
                push_str(&mut m, ext.as_str());
                Err(m)
            },
        }
    }

    /// The first registered backend that handles the extension.
    pub fn find_by_extension(&self, extension: &str) -> (r: Option<&BackendInfo>)
        ensures
            match first_where(self.registered(), |b: BackendInfo| handles(b, extension@)) {
                Some(i) => r == Some(&self.registered()[i]),
                None => r is None,
            },
    {
        let ghost p = |b: BackendInfo| handles(b, extension@);
        let mut i: usize = 0;
        assert(self.backends@.skip(0) =~= self.backends@);
        while i < self.backends.len()
            invariant
                i <= self.backends@.len(),
                p == (|b: BackendInfo| handles(b, extension@)),
                first_where(self.backends@, p) == match first_where(self.backends@.skip(i as int), p) {
                    Some(j) => Some(j + i),
                    None => None,
                },
            decreases self.backends@.len() - i,
        {
            let b = &self.backends[i];
            assert(self.backends@.skip(i as int)[0] == *b);
            assert(self.backends@.skip(i as int).drop_first() =~= self.backends@.skip(i + 1));
            let mut k: usize = 0;
            let mut found = false;
            while k < b.extensions.len()
                invariant
                    k <= b.extensions@.len(),
                    found <==> exists|j: int| 0 <= j < k && #[trigger] b.extensions@[j]@ == extension@,
                decreases b.extensions@.len() - k,
            {
                if str_eq(b.extensions[k].as_str(), extension) {
                    found = true;
                }
                k = k + 1;
            }
            if found {
                return Some(b);
            }
            i = i + 1;
        }
        None
    }

    /// The first registered backend whose name matches, ASCII case ignored.
    pub fn find_by_name(&self, name: &str) -> (r: Option<&BackendInfo>)
        ensures
            match first_where(self.registered(), |b: BackendInfo| same_ignoring_ascii_case(b.name@, name@)) {
                Some(i) => r == Some(&self.registered()[i]),
                None => r is None,
            },
    {
        let ghost p = |b: BackendInfo| same_ignoring_ascii_case(b.name@, name@);
        let mut i: usize = 0;
        assert(self.backends@.skip(0) =~= self.backends@);
        while i < self.backends.len()
            invariant
                i <= self.backends@.len(),
                p == (|b: BackendInfo| same_ignoring_ascii_case(b.name@, name@)),
                first_where(self.backends@, p) == match first_where(self.backends@.skip(i as int), p) {
                    Some(j) => Some(j + i),
                    None => None,
                },
            decreases self.backends@.len() - i,
        {
            let b = &self.backends[i];
            assert(self.backends@.skip(i as int)[0] == *b);
            assert(self.backends@.skip(i as int).drop_first() =~= self.backends@.skip(i + 1));
            if eq_ignore_case(b.name.as_str(), name) {
                return Some(b);
            }
            i = i + 1;
        }
        None
    }

    /// All registered backends.
    pub fn all(&self) -> (r: &Vec<BackendInfo>)
        ensures
            r@ == self.registered(),
    {
        &self.backends
    }
}

/// The text `format!("{:?}", s)` gives for a string: the string quoted, with
/// special characters escaped.
pub uninterp spec fn debug_text(s: Seq<char>) -> Seq<char>;

/// `format!("{:?}", s)` for a string. The contract names the result and does
/// not restate how characters are escaped.
#[verifier::external_body]
pub(crate) fn debug_string(s: &str) -> (r: String)
    ensures
        r@ == debug_text(s@),
{
    format!("{:?}", s)
}

/// The index of the last dot of a text.
pub open spec fn last_dot(s: Seq<char>) -> Option<int>
    decreases s.len(),
{
    if s.len() == 0 {
        None
    } else if s.last() == '.' {
        Some(s.len() - 1)
    } else {
        last_dot(s.drop_last())
    }
}

/// The extension of a file name as `Path::extension` takes it: what follows the
/// last dot, unless there is none, the dot begins the name, or the name is "..".
pub open spec fn name_extension(name: Seq<char>) -> Option<Seq<char>> {
    if name == ".."@ {
        None
    } else {
        match last_dot(name) {
            Some(i) => if i == 0 {
                None
            } else {
                Some(name.subrange(i + 1, name.len() as int))
            },
            None => None,
        }
    }
}

/// The extension of a path with its dot, or nothing when it has none.
pub open spec fn dotted_extension(path: Seq<char>) -> Seq<char> {
    match path_file_name_of(path) {
        Some(name) => match name_extension(name) {
            Some(e) => "."@ + e,
            None => ""@,
        },
        None => ""@,
    }
}

/// The extensions the JavaScript backend handles.
pub open spec fn js_extensions() -> Seq<Seq<char>> {
    seq![".js"@, ".jsx"@, ".ts"@, ".tsx"@, ".mjs"@, ".cjs"@]
}

proof fn lemma_last_dot(s: Seq<char>)
    ensures
        last_dot(s) matches Some(i) ==> 0 <= i < s.len() && s[i] == '.' && forall|j: int| i < j < s.len() ==> s[j] != '.',
        last_dot(s) is None ==> forall|j: int| 0 <= j < s.len() ==> s[j] != '.',
    decreases s.len(),
{
    if s.len() > 0 {
        lemma_last_dot(s.drop_last());
        assert forall|j: int| 0 <= j < s.len() - 1 implies s.drop_last()[j] == s[j] by {}
    }
}

/// The extension of a path, with its dot; empty when it has none.
fn dotted_extension_of(path: &str) -> (r: String)
    ensures
        r@ == dotted_extension(path@),
{
    match path_file_name(path) {
        None => to_owned_string(""),
        Some(name) => {
            let cs = chars_of(name.as_str());
            proof {
                lemma_last_dot(name@);
            }
            if str_eq(name.as_str(), "..") {
                return to_owned_string("");
            }
            let mut i: usize = cs.len();
            while i > 0 && cs[i - 1] != '.'
                invariant
                    i <= cs@.len(),
                    cs@ == name@,
                    forall|j: int| i <= j < cs@.len() ==> cs@[j] != '.',
                decreases i,
            {
                i = i - 1;
            }
            proof {
                if i > 0 {
                    assert(last_dot(name@) == Some(i - 1)) by {
                        lemma_last_dot(name@);
                        let k = last_dot(name@);
                        if k is None {
                            assert(name@[i - 1] == '.');
                        } else {
                            let k = k.unwrap();
                            if k < i - 1 {
                                assert(name@[i - 1] == '.');
                            }
                        }
                    }
                } else {
                    assert(last_dot(name@) is None) by {
                        lemma_last_dot(name@);
                        if last_dot(name@) is Some {
                            let k = last_dot(name@).unwrap();
                            assert(cs@[k] == '.');
                        }
                    }
                }
            }
            if i <= 1 {
                return to_owned_string("");
            }
            let mut rest: Vec<char> = Vec::new();
            let mut k: usize = i;
            while k < cs.len()
                invariant
                    i <= k <= cs@.len(),
                    rest@ == cs@.subrange(i as int, k as int),
                decreases cs@.len() - k,
            {
                rest.push(cs[k]);
                assert(cs@.subrange(i as int, k + 1) =~= cs@.subrange(i as int, k as int).push(cs@[k as int]));
                k = k + 1;
            }
            let mut r = to_owned_string(".");
            let e = string_from_chars(&rest);
            push_str(&mut r, e.as_str());
            r
        },
    }
}

/// The JavaScript and TypeScript backend.
pub struct JsBackend;

impl JsBackend {
    /// Creates the backend. It holds no state that could fail to be set up.
    pub fn new() -> (r: Result<JsBackend, Error>)
        ensures
            r is Ok,
    {
        Ok(JsBackend)
    }

    /// The backend's name.
    pub fn name(&self) -> (r: &'static str)
        ensures
            r@ == "JavaScript"@,
    {
        "JavaScript"
    }

    /// The file extensions the backend handles.
    pub fn supported_extensions(&self) -> (r: Vec<&'static str>)
        ensures
            r@.len() == js_extensions().len(),
            forall|i: int| 0 <= i < r@.len() ==> (#[trigger] r@[i])@ == js_extensions()[i],
    {
        let r = vec![".js", ".jsx", ".ts", ".tsx", ".mjs", ".cjs"];
        proof {
            reveal_strlit(".js");
            reveal_strlit(".jsx");
            reveal_strlit(".ts");
            reveal_strlit(".tsx");
            reveal_strlit(".mjs");
            reveal_strlit(".cjs");
        }
        r
    }

    /// The registry entry describing this backend.
    pub fn info(&self) -> (r: BackendInfo)
        ensures
            r.name@ == "JavaScript"@,
            r.extensions@.len() == js_extensions().len(),
            forall|i: int| 0 <= i < r.extensions@.len() ==> (#[trigger] r.extensions@[i])@ == js_extensions()[i],
    {
        let exts = self.supported_extensions();
        let mut extensions: Vec<String> = Vec::new();
        let mut i: usize = 0;
        while i < exts.len()
            invariant
                i <= exts@.len(),
                exts@.len() == js_extensions().len(),
                forall|k: int| 0 <= k < exts@.len() ==> (#[trigger] exts@[k])@ == js_extensions()[k],
                extensions@.len() == i,
                forall|k: int| 0 <= k < i ==> (#[trigger] extensions@[k])@ == js_extensions()[k],
            decreases exts@.len() - i,
        {
            extensions.push(to_owned_string(exts[i]));
            i = i + 1;
        }
        BackendInfo { name: to_owned_string("JavaScript"), extensions }
    }

    /// Checks that every entry point has an extension the backend handles; the
    /// first that has not is refused, naming the entry point and its extension.
    pub fn validate(&self, entry_points: &Vec<String>) -> (r: Result<(), Error>)
        ensures
            match r {
                Ok(()) => forall|k: int| 0 <= k < entry_points@.len() ==> js_extensions().contains(dotted_extension(#[trigger] entry_points@[k]@)),
                Err(Error::InvalidConfig { message }) => exists|k: int|
                    0 <= k < entry_points@.len() && !js_extensions().contains(dotted_extension(#[trigger] entry_points@[k]@))
                        && (forall|j: int| 0 <= j < k ==> js_extensions().contains(dotted_extension(#[trigger] entry_points@[j]@)))
                        && message@ == "Entry point "@ + debug_text(entry_points@[k]@) + " has unsupported extension: "@
                        + dotted_extension(entry_points@[k]@),
                Err(_) => false,
            },
    {
        let exts = self.supported_extensions();
        let mut k: usize = 0;
        while k < entry_points.len()
            invariant
                k <= entry_points@.len(),
                exts@.len() == js_extensions().len(),
                forall|q: int| 0 <= q < exts@.len() ==> (#[trigger] exts@[q])@ == js_extensions()[q],
                forall|j: int| 0 <= j < k ==> js_extensions().contains(dotted_extension(#[trigger] entry_points@[j]@)),
            decreases entry_points@.len() - k,
        {
            let ext = dotted_extension_of(entry_points[k].as_str());
            let mut q: usize = 0;
            let mut ok = false;
            while q < exts.len()
                invariant
                    q <= exts@.len(),
                    exts@.len() == js_extensions().len(),
                    forall|t: int| 0 <= t < exts@.len() ==> (#[trigger] exts@[t])@ == js_extensions()[t],
                    ok <==> exists|t: int| 0 <= t < q && js_extensions()[t] == ext@,
                decreases exts@.len() - q,
            {
                if str_eq(exts[q], ext.as_str()) {
                    ok = true;
                }
                q = q + 1;
            }
            if !ok {
                let mut message = to_owned_string("Entry point ");
                let shown = debug_string(entry_points[k].as_str());
                push_str(&mut message, shown.as_str());
                push_str(&mut message, " has unsupported extension: ");
                push_str(&mut message, ext.as_str());
                proof {
                    if js_extensions().contains(ext@) {
                        let t = choose|t: int| 0 <= t < js_extensions().len() && js_extensions()[t] == ext@;
                    }
                }
                return Err(Error::InvalidConfig { message });
            }
            proof {
                let t = choose|t: int| 0 <= t < q && js_extensions()[t] == ext@;
                assert(js_extensions().contains(ext@));
            }
            k = k + 1;
        }
        Ok(())
    }

    /// The framework an export belongs to, given what the framework detector
    /// reported for the module's imports and for its path: the first framework
    /// found from the imports, else the first found from the path, else
    /// "Unknown".
    pub fn infer_framework(import_matches: &Vec<String>, path_matches: &Vec<String>) -> (r: String)
        ensures
            r@ == if import_matches@.len() > 0 {
                import_matches@[0]@
            } else if path_matches@.len() > 0 {
                path_matches@[0]@
            } else {
                "Unknown"@
            },
    {
        if import_matches.len() > 0 {
            import_matches[0].clone()
        } else if path_matches.len() > 0 {
            path_matches[0].clone()
        } else {
            to_owned_string("Unknown")
        }
    }

    /// The frameworks detected in the graph, given what the detector reported
    /// for all imports and for each module path: each framework once, whether
    /// it was found from the imports or from a path. (The order of the result
    /// is not part of the contract.)
    pub fn detect_frameworks(import_matches: &Vec<String>, path_matches: &Vec<String>) -> (r: Vec<String>)
        ensures
            texts(r@).no_duplicates(),
            forall|x: Seq<char>| texts(r@).contains(x) <==> (texts(import_matches@).contains(x) || texts(path_matches@).contains(x)),
    {
        let mut out: Vec<String> = Vec::new();
        assert(texts(out@) =~= Seq::<Seq<char>>::empty());
        add_distinct(&mut out, import_matches);
        let ghost mid = texts(out@);
        add_distinct(&mut out, path_matches);
        assert forall|x: Seq<char>| texts(out@).contains(x) <==> (texts(import_matches@).contains(x)
            || texts(path_matches@).contains(x)) by {
            assert(texts(out@).contains(x) <==> (mid.contains(x) || texts(path_matches@).contains(x)));
            assert(mid.contains(x) <==> (Seq::<Seq<char>>::empty().contains(x) || texts(import_matches@).contains(x)));
        }
        out
    }
}

/// Appends the texts of `more` not yet present, each once.
fn add_distinct(out: &mut Vec<String>, more: &Vec<String>)
    requires
        texts(old(out)@).no_duplicates(),
    ensures
        texts(final(out)@).no_duplicates(),
        forall|x: Seq<char>| #[trigger] texts(final(out)@).contains(x) <==> (texts(old(out)@).contains(x) || texts(more@).contains(x)),
{
    let ghost start = texts(out@);
    let ghost ms = texts(more@);
    let mut i: usize = 0;
    while i < more.len()
        invariant
            i <= more@.len(),
            ms == texts(more@),
            texts(out@).no_duplicates(),
            forall|x: Seq<char>| texts(out@).contains(x) <==> (start.contains(x) || ms.take(i as int).contains(x)),
        decreases more@.len() - i,
    {
        let m = &more[i];
        let mut present = false;
        let mut k: usize = 0;
        while k < out.len()
            invariant
                k <= out@.len(),
                i < more@.len(),
                m == more@[i as int],
                ms == texts(more@),
                texts(out@).no_duplicates(),
                forall|x: Seq<char>| texts(out@).contains(x) <==> (start.contains(x) || ms.take(i as int).contains(x)),
                present <==> exists|t: int| 0 <= t < k && out@[t]@ == m@,
            decreases out@.len() - k,
        {
            if str_eq(out[k].as_str(), m.as_str()) {
                present = true;
            }
            k = k + 1;
        }
        let ghost os = texts(out@);
        proof {
            assert(ms.take(i + 1) =~= ms.take(i as int).push(m@));
            if present {
                let t = choose|t: int| 0 <= t < out@.len() && out@[t]@ == m@;
                assert(os[t] == m@);
            }
        }
        if !present {
            out.push(m.clone());
            proof {
                assert(texts(out@) =~= os.push(m@));
                assert(!os.contains(m@)) by {
                    if os.contains(m@) {
                        let t = choose|t: int| 0 <= t < os.len() && os[t] == m@;
                        assert(out@[t]@ == m@);
                    }
                }
            }
        }
        proof {
            let ns = texts(out@);
            let tk = ms.take(i + 1);
            assert(tk =~= ms.take(i as int).push(m@));
            assert forall|x: Seq<char>| ns.contains(x) <==> (start.contains(x) || tk.contains(x)) by {
                assert(os.contains(x) <==> (start.contains(x) || ms.take(i as int).contains(x)));
                assert(tk.contains(x) <==> (ms.take(i as int).contains(x) || x == m@));
                if !present {
                    assert(ns =~= os.push(m@));
                    assert(ns.contains(x) <==> (os.contains(x) || x == m@));
                } else {
                    assert(ns == os);
                    assert(os.contains(m@)) by {
                        let t = choose|t: int| 0 <= t < out@.len() && out@[t]@ == m@;
                        assert(os[t] == m@);
                    }
                }
            }
        }
        i = i + 1;
    }
    proof {
        assert(ms.take(ms.len() as int) =~= ms);
        assert(i == ms.len());
        assert forall|x: Seq<char>| texts(out@).contains(x) <==> (start.contains(x) || ms.contains(x)) by {
            assert(texts(out@).contains(x) <==> (start.contains(x) || ms.take(i as int).contains(x)));
            assert(ms.take(ms.len() as int).contains(x) == ms.contains(x));
        }
    }
}

} // verus!

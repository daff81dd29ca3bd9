//! Entry points and analysis targets: the checks on entry-point paths, the
//! limits on files mode, the refusal of system directories, and the choice
//! between package and files mode for the paths given on the command line.
use vstd::prelude::*;
use crate::config::{AnalysisTarget, FilesTarget, Framework};
use crate::error::Error;
use crate::paths::{
    is_absolute, is_absolute_path, path_components_eq, path_eq, path_starts_with,
    path_starts_with_base,
};
use crate::text::{chars_of, contains_chars, push_str, seq_contains_seq, to_owned_string};
use serde_json::Error as JsonError;

verus! {

/// Maximum number of files allowed in files mode, to prevent resource exhaustion.
pub const MAX_FILES_IN_FILES_MODE: usize = 1000;

/// `rel` appended to `root` as a path (`Path::join` with a relative path on
/// Unix): a separator goes between them unless `root` is empty or already ends
/// with one.
pub open spec fn joined_path(root: Seq<char>, rel: Seq<char>) -> Seq<char> {
    if root.len() == 0 {
        rel
    } else if root.last() == '/' {
        root + rel
    } else {
        root + seq!['/'] + rel
    }
}

/// Joins a relative path onto a root.
pub fn join_path(root: &str, rel: &str) -> (r: String)
    ensures
        r@ == joined_path(root@, rel@),
{
    let cs = chars_of(root);
    let mut r = to_owned_string(root);
    if cs.len() > 0 && cs[cs.len() - 1] != '/' {
        crate::text::push_char(&mut r, '/');
        assert(r@ == root@ + seq!['/']);
    }
    push_str(&mut r, rel);
    r
}

/// Validates that a path lies within the project root, given both in
/// canonical form: the canonical path must start with the canonical root,
/// component by component. Otherwise the path traverses out of the root.
pub fn validate_path_within_root(path: &str, root: &str, canonical_path: &str, canonical_root: &str) -> (r: Result<(), Error>)
    ensures
        match r {
            Ok(()) => path_starts_with_base(canonical_path@, canonical_root@),
            Err(Error::PathTraversal { attempted_path, project_root }) => !path_starts_with_base(
                canonical_path@,
                canonical_root@,
            ) && attempted_path@ == path@ && project_root@ == root@,
            Err(_) => false,
        },
{
    if !path_starts_with(canonical_path, canonical_root) {
        return Err(
            Error::PathTraversal {
                attempted_path: to_owned_string(path),
                project_root: to_owned_string(root),
            },
        );
    }
    Ok(())
}

/// An entry point may contain no glob syntax.
pub open spec fn has_glob_syntax(p: Seq<char>) -> bool {
    p.contains('*') || p.contains('?')
}

/// Checks an entry point named in package.json and joins it onto the
/// package root: absolute paths and paths with glob patterns are refused. The
/// joined path must still be checked to lie within the root and to name a file.
pub fn validate_entry_point(entry_point: &str, root: &str) -> (r: Result<String, Error>)
    ensures
        match r {
            Ok(full) => !is_absolute_path(entry_point@) && !has_glob_syntax(entry_point@) && full@
                == joined_path(root@, entry_point@),
            Err(Error::InvalidPath { path, reason }) => path@ == entry_point@ && if is_absolute_path(
                entry_point@,
            ) {
                reason@ == "Entry point cannot be an absolute path"@
            } else {
                has_glob_syntax(entry_point@) && reason@
                    == "Entry point cannot contain glob patterns (*, ?, **)"@
            },
            Err(_) => false,
        },
{
    if is_absolute(entry_point) {
        return Err(
            Error::InvalidPath {
                path: to_owned_string(entry_point),
                reason: to_owned_string("Entry point cannot be an absolute path"),
            },
        );
    }
    let cs = chars_of(entry_point);
    let mut i: usize = 0;
    while i < cs.len()
        invariant
            i <= cs@.len(),
            cs@ == entry_point@,
            !is_absolute_path(entry_point@),
            forall|j: int| 0 <= j < i ==> cs@[j] != '*' && cs@[j] != '?',
        decreases cs@.len() - i,
    {
        if cs[i] == '*' || cs[i] == '?' {
            proof {
                if cs@[i as int] == '*' {
                    assert(entry_point@.contains('*'));
                } else {
                    assert(entry_point@.contains('?'));
                }
            }
            return Err(
                Error::InvalidPath {
                    path: to_owned_string(entry_point),
                    reason: to_owned_string("Entry point cannot contain glob patterns (*, ?, **)"),
                },
            );
        }
        i = i + 1;
    }
    Ok(join_path(root, entry_point))
}

/// Settles an entry point whose joined path has been canonicalized: it must
/// lie within the root and name an existing file.
pub fn settle_entry_point(full_path: String, root: &str, canonical_path: &str, canonical_root: &str, is_file: bool) -> (r: Result<String, Error>)
    ensures
        match r {
            Ok(p) => p == full_path && path_starts_with_base(canonical_path@, canonical_root@) && is_file,
            Err(Error::PathTraversal { attempted_path, project_root }) => !path_starts_with_base(
                canonical_path@,
                canonical_root@,
            ) && attempted_path@ == full_path@ && project_root@ == root@,
            Err(Error::EntryPointNotFound { path }) => path_starts_with_base(canonical_path@, canonical_root@)
                && !is_file && path == full_path,
            Err(_) => false,
        },
{
    match validate_path_within_root(full_path.as_str(), root, canonical_path, canonical_root) {
        Err(e) => return Err(e),
        Ok(()) => {},
    }
    if !is_file {
        return Err(Error::EntryPointNotFound { path: full_path });
    }
    Ok(full_path)
}

#[verifier::external_type_specification]
#[verifier::external_body]
pub struct ExJsonError(JsonError);

/// Whether `content` is a JSON document that serde_json parses.
pub uninterp spec fn json_parses(content: Seq<char>) -> bool;

/// The string held by the member `key` of the JSON document `content`:
/// `None` when the document is not an object, has no such member, or the
/// member is not a string.
pub uninterp spec fn json_string_member(content: Seq<char>, key: Seq<char>) -> Option<Seq<char>>;

/// The text of an optional string.
pub open spec fn optional_text(s: Option<String>) -> Option<Seq<char>> {
    match s {
        Some(t) => Some(t@),
        None => None,
    }
}

/// `serde_json::from_str` into a `serde_json::Value`, then `Value::get` of
/// `key` and `Value::as_str`: it succeeds exactly on the documents serde_json
/// parses, and gives the string member `key` of the document, if any.
#[verifier::external_body]
fn json_member_string(content: &str, key: &str) -> (r: Result<Option<String>, JsonError>)
    ensures
        r is Ok <==> json_parses(content@),
        r matches Ok(m) ==> optional_text(m) == json_string_member(content@, key@),
{
    let value: serde_json::Value = serde_json::from_str(content)?;
    Ok(value.get(key).and_then(serde_json::Value::as_str).map(String::from))
}

/// Why the fields of a package.json could not be read.
#[derive(Debug)]
pub enum PackageJsonError {
    /// The text is not valid JSON.
    Parse(JsonError),
}

/// The `main` and `module` fields of the text of a package.json, where they
/// hold strings; fails when the text is not valid JSON.
pub fn package_entry_fields(content: &str) -> (r: Result<(Option<String>, Option<String>), PackageJsonError>)
    ensures
        r is Ok <==> json_parses(content@),
        r matches Ok((main, module)) ==> optional_text(main) == json_string_member(content@, "main"@)
            && optional_text(module) == json_string_member(content@, "module"@),
{
    let main = match json_member_string(content, "main") {
        Ok(m) => m,
        Err(e) => return Err(PackageJsonError::Parse(e)),
    };
    let module = match json_member_string(content, "module") {
        Ok(m) => m,
        Err(e) => return Err(PackageJsonError::Parse(e)),
    };
    Ok((main, module))
}

/// The entry points of a package: the validated `main` entry, then the
/// validated `module` entry unless it is the same path.
pub fn merge_entry_points(main: Option<String>, module: Option<String>) -> (r: Vec<String>)
    ensures
        r@ == match (main, module) {
            (Some(a), Some(b)) => if a@ == b@ {
                seq![a]
            } else {
                seq![a, b]
            },
            (Some(a), None) => seq![a],
            (None, Some(b)) => seq![b],
            (None, None) => Seq::empty(),
        },
{
    let mut r: Vec<String> = Vec::new();
    match main {
        Some(a) => {
            match module {
                Some(b) => {
                    if crate::text::str_eq(a.as_str(), b.as_str()) {
                        r.push(a);
                        assert(r@ =~= seq![a]);
                    } else {
                        r.push(a);
                        r.push(b);
                        assert(r@ =~= seq![a, b]);
                    }
                },
                None => {
                    r.push(a);
                    assert(r@ =~= seq![a]);
                },
            }
        },
        None => {
            match module {
                Some(b) => {
                    r.push(b);
                    assert(r@ =~= seq![b]);
                },
                None => {
                    assert(r@ =~= Seq::<String>::empty());
                },
            }
        },
    }
    r
}

/// The framework a package.json's text names among its dependencies,
/// checked in order: Next.js, Vue, Svelte, then React.
pub open spec fn framework_in(content: Seq<char>) -> Option<Framework> {
    if seq_contains_seq(content, "\"next\""@) {
        Some(Framework::NextJs)
    } else if seq_contains_seq(content, "\"@vue/"@) || seq_contains_seq(content, "\"vue\""@) {
        Some(Framework::Vue)
    } else if seq_contains_seq(content, "\"svelte\""@) {
        Some(Framework::Svelte)
    } else if seq_contains_seq(content, "\"react\""@) {
        Some(Framework::React)
    } else {
        None
    }
}

/// Detects the framework from the text of package.json.
pub fn detect_framework_in(content: &str) -> (r: Option<Framework>)
    ensures
        r == framework_in(content@),
{
    let c = chars_of(content);
    if contains_chars(&c, &chars_of("\"next\"")) {
        Some(Framework::NextJs)
    } else if contains_chars(&c, &chars_of("\"@vue/")) || contains_chars(&c, &chars_of("\"vue\"")) {
        Some(Framework::Vue)
    } else if contains_chars(&c, &chars_of("\"svelte\"")) {
        Some(Framework::Svelte)
    } else if contains_chars(&c, &chars_of("\"react\"")) {
        Some(Framework::React)
    } else {
        None
    }
}

/// How an analysis target is found for the paths given on the command line.
#[derive(Debug, Clone)]
pub enum TargetPlan {
    /// Analyse the package whose package.json is in this directory.
    PackageFromDirectory(String),
    /// Analyse the package containing this path (after checking that the path
    /// is within the working directory).
    PackageForPath(String),
    /// Analyse these files (after the files-mode checks).
    Files(Vec<String>),
}

/// Chooses analysis targets for command-line paths.
pub struct EntryPointDetector {
    working_dir: String,
}

impl EntryPointDetector {
    /// The working directory the detector starts from.
    pub closed spec fn dir(&self) -> Seq<char> {
        self.working_dir@
    }

    pub fn new(working_dir: String) -> (d: Self)
        ensures
            d.dir() == working_dir@,
    {
        EntryPointDetector { working_dir }
    }

    /// Decides how to find the analysis target: no path means the package of
    /// the working directory; one path means the package containing it when
    /// package mode is forced, the package in it when it is a directory, and
    /// that file otherwise; several paths mean those files, or the package of
    /// the first when package mode is forced. `first_is_dir` says whether the
    /// first path is a directory.
    pub fn detect_target(&self, paths: &Vec<String>, force_package_mode: bool, first_is_dir: bool) -> (r: TargetPlan)
        ensures
            match r {
                TargetPlan::PackageFromDirectory(d) => (paths@.len() == 0 && d@ == self.dir()) || (
                paths@.len() == 1 && !force_package_mode && first_is_dir && d == paths@[0]),
                TargetPlan::PackageForPath(p) => paths@.len() >= 1 && force_package_mode && p == paths@[0],
                TargetPlan::Files(fs) => paths@.len() >= 1 && !force_package_mode && (paths@.len() > 1
                    || !first_is_dir) && fs@ == paths@,
            },
    {
        if paths.len() == 0 {
            return TargetPlan::PackageFromDirectory(self.working_dir.clone());
        }
        if paths.len() == 1 {
            if force_package_mode {
                return TargetPlan::PackageForPath(paths[0].clone());
            }
            if first_is_dir {
                return TargetPlan::PackageFromDirectory(paths[0].clone());
            }
            let v = vec![paths[0].clone()];
            assert(v@ =~= paths@);
            return TargetPlan::Files(v);
        }
        if force_package_mode {
            TargetPlan::PackageForPath(paths[0].clone())
        } else {
            let mut v: Vec<String> = Vec::new();
            let mut i: usize = 0;
            while i < paths.len()
                invariant
                    i <= paths@.len(),
                    v@ == paths@.take(i as int),
                decreases paths@.len() - i,
            {
                v.push(paths[i].clone());
                proof {
                    assert(paths@.take(i + 1) =~= paths@.take(i as int).push(paths@[i as int]));
                }
                i = i + 1;
            }
            proof {
                assert(paths@.take(paths@.len() as int) =~= paths@);
            }
            TargetPlan::Files(v)
        }
    }
}

/// The outcome of the files-mode checks: more than the allowed number of files
/// fails first; then, file by file, a path that cannot be canonicalized, a
/// root that cannot be, or a path outside the root fails with that file.
pub open spec fn files_check_outcome(
    files: Seq<String>,
    root: Seq<char>,
    canonical_files: Seq<Result<String, String>>,
    canonical_root: Result<String, String>,
    r: Result<(), Error>,
) -> bool {
    if files.len() > MAX_FILES_IN_FILES_MODE {
        r == Err::<(), Error>(Error::TooManyFiles { count: files.len() as usize, max_allowed: MAX_FILES_IN_FILES_MODE })
    } else {
        match r {
            Ok(()) => forall|i: int| 0 <= i < files.len() ==> file_within_root(#[trigger] canonical_files[i], canonical_root),
            Err(e) => exists|i: int|
                0 <= i < files.len() && !file_within_root(#[trigger] canonical_files[i], canonical_root)
                    && file_error(files[i]@, root, canonical_files[i], canonical_root, e) && forall|j: int|
                    0 <= j < i ==> file_within_root(#[trigger] canonical_files[j], canonical_root),
        }
    }
}

/// A file passes the root check: both it and the root canonicalize, and the
/// file's canonical path starts with the root's.
pub open spec fn file_within_root(canonical_file: Result<String, String>, canonical_root: Result<String, String>) -> bool {
    match (canonical_file, canonical_root) {
        (Ok(f), Ok(r)) => path_starts_with_base(f@, r@),
        _ => false,
    }
}

/// The error for a file that fails the root check.
pub open spec fn file_error(
    file: Seq<char>,
    root: Seq<char>,
    canonical_file: Result<String, String>,
    canonical_root: Result<String, String>,
    e: Error,
) -> bool {
    match (canonical_file, canonical_root) {
        (Err(m), _) => e matches Error::InvalidPath { path, reason } && path@ == file && reason@
            == "Failed to canonicalize path: "@ + m@,
        (Ok(_), Err(m)) => e matches Error::InvalidPath { path, reason } && path@ == root && reason@
            == "Failed to canonicalize root: "@ + m@,
        (Ok(_), Ok(_)) => e matches Error::PathTraversal { attempted_path, project_root }
            && attempted_path@ == file && project_root@ == root,
    }
}

/// Validates the files of files mode: their number, then each file's
/// canonical path (given, in order, as canonicalization produced it, with the
/// error text where it failed) against the canonical root.
pub fn validate_files_for_analysis(
    files: &Vec<String>,
    root: &str,
    canonical_files: &Vec<Result<String, String>>,
    canonical_root: &Result<String, String>,
) -> (r: Result<(), Error>)
    requires
        canonical_files@.len() == files@.len(),
    ensures
        files_check_outcome(files@, root@, canonical_files@, *canonical_root, r),
{
    if files.len() > MAX_FILES_IN_FILES_MODE {
        return Err(Error::TooManyFiles { count: files.len(), max_allowed: MAX_FILES_IN_FILES_MODE });
    }
    let mut i: usize = 0;
    while i < files.len()
        invariant
            i <= files@.len(),
            canonical_files@.len() == files@.len(),
            files@.len() <= MAX_FILES_IN_FILES_MODE,
            forall|j: int| 0 <= j < i ==> file_within_root(#[trigger] canonical_files@[j], *canonical_root),
        decreases files@.len() - i,
    {
        match &canonical_files[i] {
            Err(m) => {
                let mut reason = to_owned_string("Failed to canonicalize path: ");
                push_str(&mut reason, m.as_str());
                let e = Error::InvalidPath { path: files[i].clone(), reason };
                proof {
                    assert(!file_within_root(canonical_files@[i as int], *canonical_root));
                    assert(file_error(files@[i as int]@, root@, canonical_files@[i as int], *canonical_root, e));
                }
                return Err(e);
            },
            Ok(cf) => {
                match canonical_root {
                    Err(m) => {
                        let mut reason = to_owned_string("Failed to canonicalize root: ");
                        push_str(&mut reason, m.as_str());
                        let e = Error::InvalidPath { path: to_owned_string(root), reason };
                        proof {
                            assert(!file_within_root(canonical_files@[i as int], *canonical_root));
                            assert(file_error(files@[i as int]@, root@, canonical_files@[i as int], *canonical_root, e));
                        }
                        return Err(e);
                    },
                    Ok(cr) => {
                        if !path_starts_with(cf.as_str(), cr.as_str()) {
                            let e = Error::PathTraversal {
                                attempted_path: files[i].clone(),
                                project_root: to_owned_string(root),
                            };
                            proof {
                                assert(!file_within_root(canonical_files@[i as int], *canonical_root));
                                assert(file_error(files@[i as int]@, root@, canonical_files@[i as int], *canonical_root, e));
                            }
                            return Err(e);
                        }
                    },
                }
            },
        }
        i = i + 1;
    }
    Ok(())
}

/// The files-mode target for files given on the command line, after the
/// files-mode checks; `nearby_package` is the package.json found nearest to
/// the first file, if any.
pub fn files_target(
    files: Vec<String>,
    working_dir: &str,
    canonical_files: &Vec<Result<String, String>>,
    canonical_root: &Result<String, String>,
    nearby_package: Option<String>,
) -> (r: Result<AnalysisTarget, Error>)
    requires
        canonical_files@.len() == files@.len(),
    ensures
        match r {
            Ok(t) => files_check_outcome(files@, working_dir@, canonical_files@, *canonical_root, Ok(()))
                && (t matches AnalysisTarget::Files(ft) && ft.files@ == files@ && ft.working_dir@ == working_dir@
                && ft.nearby_package == nearby_package),
            Err(e) => files_check_outcome(files@, working_dir@, canonical_files@, *canonical_root, Err(e)),
        },
{
    match validate_files_for_analysis(&files, working_dir, canonical_files, canonical_root) {
        Ok(()) => Ok(
            AnalysisTarget::Files(
                FilesTarget { files, working_dir: to_owned_string(working_dir), nearby_package },
            ),
        ),
        Err(e) => Err(e),
    }
}

/// The directories that are never scanned, besides the filesystem root.
pub open spec fn system_directories() -> Seq<Seq<char>> {
    seq!["/bin"@, "/sbin"@, "/usr"@, "/etc"@, "/var"@, "/sys"@, "/proc"@]
}

/// Refuses to scan the filesystem root or a system directory (a root that
/// starts, component-wise, with one of them); the first such directory in
/// order is named in the error.
pub fn validate_project_root(root: &str) -> (r: Result<(), Error>)
    ensures
        match r {
            Ok(()) => !path_components_eq(root@, "/"@) && forall|k: int|
                0 <= k < system_directories().len() ==> !path_starts_with_base(root@, #[trigger] system_directories()[k]),
            Err(Error::InvalidConfig { message }) => if path_components_eq(root@, "/"@) {
                message@ == "Refusing to scan filesystem root"@
            } else {
                exists|k: int|
                    0 <= k < system_directories().len() && path_starts_with_base(root@, #[trigger] system_directories()[k])
                        && message@ == "Refusing to scan system directory: "@ + system_directories()[k]
                        && forall|j: int| 0 <= j < k ==> !path_starts_with_base(root@, #[trigger] system_directories()[j])
            },
            Err(_) => false,
        },
{
    if path_eq(root, "/") {
        return Err(Error::InvalidConfig { message: to_owned_string("Refusing to scan filesystem root") });
    }
    let dangerous: Vec<&str> = vec!["/bin", "/sbin", "/usr", "/etc", "/var", "/sys", "/proc"];
    proof {
        assert(dangerous@.len() == system_directories().len());
        assert(forall|k: int| 0 <= k < dangerous@.len() ==> #[trigger] dangerous@[k]@ == system_directories()[k]);
    }
    let mut k: usize = 0;
    while k < dangerous.len()
        invariant
            k <= dangerous@.len(),
            dangerous@.len() == system_directories().len(),
            forall|q: int| 0 <= q < dangerous@.len() ==> #[trigger] dangerous@[q]@ == system_directories()[q],
            !path_components_eq(root@, "/"@),
            forall|j: int| 0 <= j < k ==> !path_starts_with_base(root@, #[trigger] system_directories()[j]),
        decreases dangerous@.len() - k,
    {
        let d = dangerous[k];
        if path_starts_with(root, d) {
            let mut message = to_owned_string("Refusing to scan system directory: ");
            push_str(&mut message, d);
            proof {
                assert(path_starts_with_base(root@, system_directories()[k as int]));
            }
            return Err(Error::InvalidConfig { message });
        }
        k = k + 1;
    }
    Ok(())
}

/// Validates that a path lies within the project root (core check), given
/// the results of canonicalizing both (the error text where that failed).
pub fn validate_path(
    path: &str,
    project_root: &str,
    canonical_path: &Result<String, String>,
    canonical_root: &Result<String, String>,
) -> (r: Result<(), Error>)
    ensures
        match (*canonical_path, *canonical_root) {
            (Err(m), _) => r matches Err(Error::InvalidPath { path: p, reason }) && p@ == path@ && reason@
                == "Cannot canonicalize: "@ + m@,
            (Ok(_), Err(m)) => r matches Err(Error::InvalidPath { path: p, reason }) && p@ == project_root@
                && reason@ == "Cannot canonicalize project root: "@ + m@,
            (Ok(cp), Ok(cr)) => if path_starts_with_base(cp@, cr@) {
                r is Ok
            } else {
                r matches Err(Error::PathTraversal { attempted_path, project_root: pr }) && attempted_path@
                    == path@ && pr@ == project_root@
            },
        },
{
    let cp = match canonical_path {
        Err(m) => {
            let mut reason = to_owned_string("Cannot canonicalize: ");
            push_str(&mut reason, m.as_str());
            return Err(Error::InvalidPath { path: to_owned_string(path), reason });
        },
        Ok(c) => c,
    };
    let cr = match canonical_root {
        Err(m) => {
            let mut reason = to_owned_string("Cannot canonicalize project root: ");
            push_str(&mut reason, m.as_str());
            return Err(Error::InvalidPath { path: to_owned_string(project_root), reason });
        },
        Ok(c) => c,
    };
    if !path_starts_with(cp.as_str(), cr.as_str()) {
        return Err(
            Error::PathTraversal {
                attempted_path: to_owned_string(path),
                project_root: to_owned_string(project_root),
            },
        );
    }
    Ok(())
}

/// Configuration for file discovery.
#[derive(Debug, Clone)]
pub struct DiscoveryConfig {
    /// File extensions to consider as source files
    pub extensions: Vec<String>,
    /// Additional ignore patterns beyond .gitignore
    pub ignore_patterns: Vec<String>,
    /// Maximum file size to consider (bytes).
    pub max_file_size: Option<u64>,
    /// Follow symlinks during traversal
    pub follow_symlinks: bool,
}

/// The source extensions discovered by default.
pub open spec fn default_extensions() -> Seq<Seq<char>> {
    seq![".js"@, ".jsx"@, ".ts"@, ".tsx"@, ".mjs"@, ".cjs"@]
}

impl Default for DiscoveryConfig {
    /// JavaScript and TypeScript sources, no extra ignore patterns, files up
    /// to 10 MiB, symlinks not followed.
    fn default() -> (c: Self)
        ensures
            c.extensions@.len() == default_extensions().len(),
            forall|i: int| 0 <= i < c.extensions@.len() ==> #[trigger] c.extensions@[i]@ == default_extensions()[i],
            c.ignore_patterns@.len() == 0,
            c.max_file_size == Some(10485760u64),
            !c.follow_symlinks,
    {
        let extensions = vec![
            to_owned_string(".js"),
            to_owned_string(".jsx"),
            to_owned_string(".ts"),
            to_owned_string(".tsx"),
            to_owned_string(".mjs"),
            to_owned_string(".cjs"),
        ];
        DiscoveryConfig {
            extensions,
            ignore_patterns: Vec::new(),
            max_file_size: Some(10 * 1024 * 1024),
            follow_symlinks: false,
        }
    }
}

} // verus!

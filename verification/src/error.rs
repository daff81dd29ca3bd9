//! Errors of the core analysis operations.
use vstd::prelude::*;
use crate::backends::{debug_string, debug_text};
use crate::ignore::texts;
use crate::report::{join_texts, joined};
use crate::text::{decimal, push_str, to_owned_string, u64_to_string};

verus! {

/// Errors that can occur during analysis.
#[derive(Debug, Clone, PartialEq, Eq)]
pub enum Error {
    EntryPointNotFound { path: String },
    InvalidConfig { message: String },
    Backend { backend: String, message: String },
    Pattern(String),
    NoBackendForExtension { extension: String },
    AmbiguousBackend { extension: String, backends: Vec<String> },
    GraphTooLarge { module_count: usize, max_allowed: usize },
    CycleTooDeep { depth: usize, max_allowed: usize },
    PathTraversal { attempted_path: String, project_root: String },
    InvalidPath { path: String, reason: String },
    UserCancelled,
    NoPackageJson { searched: String },
    TooManyFiles { count: usize, max_allowed: usize },
}

/// The text of a list of names as `{:?}` shows it: each name quoted, between
/// brackets, separated by commas.
pub open spec fn debug_list(items: Seq<Seq<char>>) -> Seq<char> {
    "["@ + joined(items.map_values(|t: Seq<char>| debug_text(t)), ", "@) + "]"@
}

/// What an error says.
pub open spec fn error_text(e: Error) -> Seq<char> {
    match e {
        Error::EntryPointNotFound { path } => "Entry point not found: "@ + path@,
        Error::InvalidConfig { message } => "Invalid configuration: "@ + message@,
        Error::Backend { backend, message } => "Backend error ("@ + backend@ + "): "@ + message@,
        Error::Pattern(m) => "Pattern error: "@ + m@,
        Error::NoBackendForExtension { extension } => "No backend found for file extension: "@ + extension@,
        Error::AmbiguousBackend { extension, backends } => "Multiple backends found for extension "@ + extension@
            + ": "@ + debug_list(texts(backends@)),
        Error::GraphTooLarge { module_count, max_allowed } => "Graph has "@ + decimal(module_count as nat)
            + " modules, max allowed is "@ + decimal(max_allowed as nat),
        Error::CycleTooDeep { depth, max_allowed } => "Circular dependency depth "@ + decimal(depth as nat)
            + " exceeds max "@ + decimal(max_allowed as nat),
        Error::PathTraversal { attempted_path, project_root } => "Path traversal: "@ + debug_text(attempted_path@)
            + " outside "@ + debug_text(project_root@),
        Error::InvalidPath { path, reason } => "Invalid path "@ + debug_text(path@) + ": "@ + reason@,
        Error::UserCancelled => "User cancelled operation"@,
        Error::NoPackageJson { searched } => "No package.json found in "@ + searched@,
        Error::TooManyFiles { count, max_allowed } => "Too many files specified: "@ + decimal(count as nat)
            + " files exceeds maximum of "@ + decimal(max_allowed as nat),
    }
}

fn debug_names(items: &Vec<String>) -> (r: String)
    ensures
        r@ == debug_list(texts(items@)),
{
    let mut shown: Vec<String> = Vec::new();
    let mut i: usize = 0;
    while i < items.len()
        invariant
            i <= items@.len(),
            texts(shown@) == texts(items@).take(i as int).map_values(|t: Seq<char>| debug_text(t)),
        decreases items@.len() - i,
    {
        let ghost before = texts(shown@);
        shown.push(debug_string(items[i].as_str()));
        proof {
            let ts = texts(items@);
            assert(ts.take(i + 1) =~= ts.take(i as int).push(items@[i as int]@));
            assert(texts(shown@) =~= before.push(debug_text(items@[i as int]@)));
            assert(ts.take(i + 1).map_values(|t: Seq<char>| debug_text(t)) =~= ts.take(i as int).map_values(
                |t: Seq<char>| debug_text(t),
            ).push(debug_text(items@[i as int]@)));
        }
        i = i + 1;
    }
    assert(texts(items@).take(items@.len() as int) =~= texts(items@));
    let mut r = to_owned_string("[");
    let j = join_texts(&shown, ", ");
    push_str(&mut r, j.as_str());
    push_str(&mut r, "]");
    r
}

fn text_then(a: &str, b: &str) -> (r: String)
    ensures
        r@ == a@ + b@,
{
    let mut r = to_owned_string(a);
    push_str(&mut r, b);
    r
}

impl Error {
    /// What the error says, as it is shown to the user.
    pub fn message(&self) -> (r: String)
        ensures
            r@ == error_text(*self),
    {
        match self {
            Error::EntryPointNotFound { path } => text_then("Entry point not found: ", path.as_str()),
            Error::InvalidConfig { message } => text_then("Invalid configuration: ", message.as_str()),
            Error::Backend { backend, message } => {
                let mut r = text_then("Backend error (", backend.as_str());
                push_str(&mut r, "): ");
                push_str(&mut r, message.as_str());
                r
            },
            Error::Pattern(m) => text_then("Pattern error: ", m.as_str()),
            Error::NoBackendForExtension { extension } => text_then(
                "No backend found for file extension: ",
                extension.as_str(),
            ),
            Error::AmbiguousBackend { extension, backends } => {
                let mut r = text_then("Multiple backends found for extension ", extension.as_str());
                push_str(&mut r, ": ");
                let l = debug_names(backends);
                push_str(&mut r, l.as_str());
                r
            },
            Error::GraphTooLarge { module_count, max_allowed } => {
                let a = u64_to_string(*module_count as u64);
                let b = u64_to_string(*max_allowed as u64);
                let mut r = text_then("Graph has ", a.as_str());
                push_str(&mut r, " modules, max allowed is ");
                push_str(&mut r, b.as_str());
                r
            },
            Error::CycleTooDeep { depth, max_allowed } => {
                let a = u64_to_string(*depth as u64);
                let b = u64_to_string(*max_allowed as u64);
                let mut r = text_then("Circular dependency depth ", a.as_str());
                push_str(&mut r, " exceeds max ");
                push_str(&mut r, b.as_str());
                r
            },
            Error::PathTraversal { attempted_path, project_root } => {
                let a = debug_string(attempted_path.as_str());
                let b = debug_string(project_root.as_str());
                let mut r = text_then("Path traversal: ", a.as_str());
                push_str(&mut r, " outside ");
                push_str(&mut r, b.as_str());
                r
            },
            Error::InvalidPath { path, reason } => {
                let a = debug_string(path.as_str());
                let mut r = text_then("Invalid path ", a.as_str());
                push_str(&mut r, ": ");
                push_str(&mut r, reason.as_str());
                r
            },
            Error::UserCancelled => to_owned_string("User cancelled operation"),
            Error::NoPackageJson { searched } => text_then("No package.json found in ", searched.as_str()),
            Error::TooManyFiles { count, max_allowed } => {
                let a = u64_to_string(*count as u64);
                let b = u64_to_string(*max_allowed as u64);
                let mut r = text_then("Too many files specified: ", a.as_str());
                push_str(&mut r, " files exceeds maximum of ");
                push_str(&mut r, b.as_str());
                r
            },
        }
    }
}

} // verus!

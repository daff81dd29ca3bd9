//! Validation of user-supplied project identifiers and names.
use vstd::prelude::*;
use crate::text::{chars_of, concat, decimal, push_str, to_owned_string, u64_to_string};

verus! {

/// Security-related errors.
#[derive(Debug, Clone, PartialEq, Eq)]
pub enum SecurityError {
    PathDoesNotExist(String),
    NotADirectory(String),
    NotReadable(String),
    InvalidProjectId(String),
    NameTooLong(usize),
    InvalidName,
}

/// Whether a character is alphabetic or numeric in the Unicode sense
/// (`char::is_alphanumeric`).
pub uninterp spec fn unicode_alphanumeric(c: char) -> bool;

/// `char::is_alphanumeric`: Unicode `Alphabetic` or `Numeric`. The contract names
/// the result; the Unicode tables are not restated.
#[verifier::external_body]
pub(crate) fn char_is_alphanumeric(c: char) -> (r: bool)
    ensures
        r == unicode_alphanumeric(c),
{
    c.is_alphanumeric()
}

/// A control character: general category Cc, which is U+0000..=U+001F and
/// U+007F..=U+009F.
pub open spec fn is_control_char(c: char) -> bool {
    (c as u32) <= 0x1F || (0x7F <= (c as u32) && (c as u32) <= 0x9F)
}

/// Whether `c` is a control character (`char::is_control`).
pub fn char_is_control(c: char) -> (r: bool)
    ensures
        r == is_control_char(c),
{
    let v = c as u32;
    v <= 0x1F || (0x7F <= v && v <= 0x9F)
}

/// A character allowed in a project id.
pub open spec fn id_char_ok(c: char) -> bool {
    unicode_alphanumeric(c) || c == '-'
}

/// The rules for a project id: 1 to 50 characters, no leading or trailing hyphen,
/// only alphanumeric characters and hyphens.
pub open spec fn valid_project_id(id: Seq<char>) -> bool {
    &&& id.len() > 0
    &&& id.len() <= 50
    &&& id[0] != '-'
    &&& id[id.len() - 1] != '-'
    &&& forall|i: int| 0 <= i < id.len() ==> id_char_ok(#[trigger] id[i])
}

/// Validate a project ID.
///
/// Project IDs must be 1-50 characters long, contain only alphanumeric characters and
/// hyphens, and not start or end with a hyphen.
pub fn validate_project_id(id: &str) -> (r: Result<(), SecurityError>)
    ensures
        r is Ok <==> valid_project_id(id@),
        r matches Err(e) ==> (e matches SecurityError::InvalidProjectId(s) && s@ == id@),
{
    let cs = chars_of(id);
    if cs.len() == 0 || cs.len() > 50 {
        return Err(SecurityError::InvalidProjectId(to_owned_string(id)));
    }
    if cs[0] == '-' || cs[cs.len() - 1] == '-' {
        return Err(SecurityError::InvalidProjectId(to_owned_string(id)));
    }
    let mut i: usize = 0;
    while i < cs.len()
        invariant
            cs@ == id@,
            i <= cs@.len(),
            forall|j: int| 0 <= j < i ==> id_char_ok(#[trigger] id@[j]),
        decreases cs@.len() - i,
    {
        let c = cs[i];
        if !(char_is_alphanumeric(c) || c == '-') {
            return Err(SecurityError::InvalidProjectId(to_owned_string(id)));
        }
        i = i + 1;
    }
    Ok(())
}

/// The error for a project name that is refused: `InvalidName` when it is
/// empty or holds a control character, `NameTooLong` with its length when it
/// has more than 100 characters.
pub open spec fn name_error(name: Seq<char>) -> SecurityError {
    if name.len() > 100 {
        SecurityError::NameTooLong(name.len() as usize)
    } else {
        SecurityError::InvalidName
    }
}

/// Validate a project name: 1 to 100 characters with no control characters.
pub fn validate_project_name(name: &str) -> (r: Result<(), SecurityError>)
    ensures
        name@.len() == 0 ==> r == Err::<(), SecurityError>(SecurityError::InvalidName),
        name@.len() > 0 && name@.len() > 100 ==> r == Err::<(), SecurityError>(
            SecurityError::NameTooLong(name@.len() as usize),
        ),
        name@.len() > 0 && name@.len() <= 100 ==> if forall|i: int|
            0 <= i < name@.len() ==> !is_control_char(#[trigger] name@[i]) {
            r is Ok
        } else {
            r == Err::<(), SecurityError>(SecurityError::InvalidName)
        },
{
    let cs = chars_of(name);
    if cs.len() == 0 {
        return Err(SecurityError::InvalidName);
    }
    if cs.len() > 100 {
        return Err(SecurityError::NameTooLong(cs.len()));
    }
    let mut i: usize = 0;
    while i < cs.len()
        invariant
            cs@ == name@,
            cs@.len() > 0,
            name@.len() <= 100,
            i <= cs@.len(),
            forall|j: int| 0 <= j < i ==> !is_control_char(#[trigger] name@[j]),
        decreases cs@.len() - i,
    {
        if char_is_control(cs[i]) {
            return Err(SecurityError::InvalidName);
        }
        i = i + 1;
    }
    Ok(())
}

/// What a security error says.
pub open spec fn security_error_text(e: SecurityError) -> Seq<char> {
    match e {
        SecurityError::PathDoesNotExist(p) => "Path does not exist: "@ + p@,
        SecurityError::NotADirectory(p) => "Path is not a directory: "@ + p@,
        SecurityError::NotReadable(p) => "Path is not readable: "@ + p@,
        SecurityError::InvalidProjectId(id) => "Invalid project ID: "@ + id@
            + ". Must contain only alphanumeric characters and hyphens"@,
        SecurityError::NameTooLong(n) => "Project name too long: "@ + decimal(n as nat) + " characters (max 100)"@,
        SecurityError::InvalidName => "Project name contains invalid characters"@,
    }
}

impl SecurityError {
    /// What the error says, as it is shown to the user.
    pub fn message(&self) -> (r: String)
        ensures
            r@ == security_error_text(*self),
    {
        match self {
            SecurityError::PathDoesNotExist(p) => concat("Path does not exist: ", p.as_str()),
            SecurityError::NotADirectory(p) => concat("Path is not a directory: ", p.as_str()),
            SecurityError::NotReadable(p) => concat("Path is not readable: ", p.as_str()),
            SecurityError::InvalidProjectId(id) => {
                let mut r = concat("Invalid project ID: ", id.as_str());
                push_str(&mut r, ". Must contain only alphanumeric characters and hyphens");
                r
            },
            SecurityError::NameTooLong(n) => {
                let d = u64_to_string(*n as u64);
                let mut r = concat("Project name too long: ", d.as_str());
                push_str(&mut r, " characters (max 100)");
                r
            },
            SecurityError::InvalidName => to_owned_string("Project name contains invalid characters"),
        }
    }
}

} // verus!

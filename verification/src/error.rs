use vstd::prelude::*;
use vstd::string::StringExecFns;

verus! {

#[verifier::external_type_specification]
#[verifier::external_body]
pub struct ExIoError(std::io::Error);

/// The ways a call into Blender, or the reading of its files, can fail.
#[derive(Debug)]
pub enum BlenderError {
    ExecutableInvalid,
    /// The path that was looked at.
    ExecutableNotFound(String),
    InvalidFile(String),
    RenderError(String),
    PythonError(String),
    ServiceOffline,
    ParseInt(std::num::ParseIntError),
    IoError(std::io::Error),
}

/// What `{:?}` prints for a string: the string quoted, with characters escaped.
pub uninterp spec fn debug_text(s: Seq<char>) -> Seq<char>;

/// `<str as Debug>::fmt`, through `format!("{:?}", ..)`: the quoted, escaped form of `s`.
/// The contract names the result and says nothing more of it.
#[verifier::external_body]
fn debug_quoted(s: &str) -> (res: String)
    ensures
        res@ == debug_text(s@),
{
    format!("{:?}", s)
}

/// What `ParseIntError` prints (`Display`): a text that std fixes for each kind of failure.
pub uninterp spec fn parse_int_error_display(e: std::num::ParseIntError) -> Seq<char>;

/// `<ParseIntError as Display>::fmt`, through `to_string`; the text is named by
/// [`parse_int_error_display`].
#[verifier::external_body]
fn parse_int_error_text(e: &std::num::ParseIntError) -> (res: String)
    ensures
        res@ == parse_int_error_display(*e),
{
    e.to_string()
}

/// `<std::io::Error as Display>::fmt`, through `to_string`. Nothing is stated of the text.
#[verifier::external_body]
fn io_error_text(e: &std::io::Error) -> String {
    e.to_string()
}

/// The text of each error that states it fully.
pub open spec fn message_spec(e: BlenderError) -> Option<Seq<char>> {
    match e {
        BlenderError::ExecutableInvalid => Some("Executable invalid"@),
        BlenderError::ExecutableNotFound(p) => Some("Executable not found at "@ + debug_text(p@)),
        BlenderError::InvalidFile(f) => Some("Invalid file: "@ + f@),
        BlenderError::RenderError(m) => Some("Render error: "@ + m@),
        BlenderError::PythonError(m) => Some("Python error: "@ + m@),
        BlenderError::ServiceOffline => Some("Service offline"@),
        BlenderError::ParseInt(e) => Some(parse_int_error_display(e)),
        BlenderError::IoError(_) => None,
    }
}

impl BlenderError {
    /// The human-readable text of the error. For `ParseInt` and `IoError` it is the text of
    /// the wrapped error; that of an I/O error is not stated (it may come from the operating
    /// system).
    pub fn message(&self) -> (res: String)
        ensures
            message_spec(*self) matches Some(m) ==> res@ == m,
    {
        match self {
            BlenderError::ExecutableInvalid => String::from_str("Executable invalid"),
            BlenderError::ExecutableNotFound(p) => {
                let mut s = String::from_str("Executable not found at ");
                let q = debug_quoted(p.as_str());
                s.append(q.as_str());
                s
            },
            BlenderError::InvalidFile(f) => {
                let mut s = String::from_str("Invalid file: ");
                s.append(f.as_str());
                s
            },
            BlenderError::RenderError(m) => {
                let mut s = String::from_str("Render error: ");
                s.append(m.as_str());
                s
            },
            BlenderError::PythonError(m) => {
                let mut s = String::from_str("Python error: ");
                s.append(m.as_str());
                s
            },
            BlenderError::ServiceOffline => String::from_str("Service offline"),
            BlenderError::ParseInt(e) => parse_int_error_text(e),
            BlenderError::IoError(e) => io_error_text(e),
        }
    }
}

/// The ways that reading a release category of the download site can fail.
#[derive(Debug)]
pub enum BlenderCategoryError {
    InvalidArch(String),
    UnsupportedOS(String),
    NotFound,
    Io(std::io::Error),
}

/// A render output format was given that cannot be used.
pub enum FormatError {
    InvalidInput,
}

} // verus!

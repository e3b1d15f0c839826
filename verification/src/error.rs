//! The error type shared by the whole pipeline.

use vstd::prelude::*;
use vstd::std_specs::convert::FromSpecImpl;
use vstd::string::StringExecFns;

verus! {

/// The operating system's error numbers, as the `nix` crate names them.
#[verifier::external_type_specification]
#[verifier::external_body]
pub struct ExErrno(nix::errno::Errno);

/// The standard library's input/output error.
#[verifier::external_type_specification]
#[verifier::external_body]
pub struct ExIoError(std::io::Error);

/// Why an operation of the pipeline did not complete.
#[derive(Debug)]
pub enum Error {
    /// A failure together with the name of the component it came from.
    Description(String, Box<Error>),
    /// A failure that the operating system reported.
    Errno(nix::errno::Errno),
    /// A failure of input or output.
    IOError(std::io::Error),
    /// A plain diagnostic message.
    Message(String),
}

/// `nix::errno::Errno`'s `Display`: the text that the `nix` crate prints
/// for an error number. Nothing is claimed about the text.
#[verifier::external_body]
fn errno_text(errno: &nix::errno::Errno) -> (text: String) {
    format!("{}", errno)
}

/// `std::io::Error`'s `Display`: the text that the standard library prints
/// for an input/output error. Nothing is claimed about the text.
#[verifier::external_body]
fn io_error_text(error: &std::io::Error) -> (text: String) {
    format!("{}", error)
}

impl Error {
    /// An error that carries `msg` as its diagnostic message.
    pub fn msg(msg: &str) -> (error: Self)
        ensures
            error.is_message(msg@),
    {
        Error::Message(msg.to_owned())
    }

    /// Whether this is a plain message with exactly the text `text`.
    pub open spec fn is_message(self, text: Seq<char>) -> bool {
        self matches Error::Message(m) && m@ == text
    }

    /// Whether `text` renders this error: a message renders as itself, a
    /// described failure as its description, a colon and a space, and the
    /// rendering of the failure inside. How an error number or an
    /// input/output error renders is left to where it comes from.
    pub open spec fn renders_as(self, text: Seq<char>) -> bool
        decreases self,
    {
        match self {
            Error::Message(m) => text == m@,
            Error::Errno(_) => true,
            Error::IOError(_) => true,
            Error::Description(desc, inner) => {
                let head = desc@ + ": "@;
                &&& head.is_prefix_of(text)
                &&& inner.renders_as(text.skip(head.len() as int))
            },
        }
    }

    /// Renders the error as text for a diagnostic.
    pub fn describe(&self) -> (text: String)
        ensures
            self.renders_as(text@),
        decreases self,
    {
        match self {
            Error::Message(m) => m.clone(),
            Error::Errno(errno) => errno_text(errno),
            Error::IOError(error) => io_error_text(error),
            Error::Description(desc, inner) => {
                let mut text = desc.clone();
                text.append(": ");
                let rest = inner.describe();
                text.append(rest.as_str());
                proof {
                    let head = desc@ + ": "@;
                    assert(text@ == head + rest@);
                    assert(text@.skip(head.len() as int) =~= rest@);
                    assert(text@.subrange(0, head.len() as int) =~= head);
                }
                text
            },
        }
    }

    /// The error that stands for what the operating system reported: the
    /// error number if there is one, otherwise the message "Unknown Error".
    pub fn from_os(errno: Option<nix::errno::Errno>) -> (error: Self)
        ensures
            match errno {
                Some(e) => error == Error::Errno(e),
                None => error.is_message("Unknown Error"@),
            },
    {
        match errno {
            Some(e) => Error::Errno(e),
            None => Error::msg("Unknown Error"),
        }
    }
}

impl From<String> for Error {
    fn from(msg: String) -> (error: Self) {
        Error::Message(msg)
    }
}

impl FromSpecImpl<String> for Error {
    open spec fn obeys_from_spec() -> bool {
        true
    }

    open spec fn from_spec(msg: String) -> Self {
        Error::Message(msg)
    }
}

impl From<std::io::Error> for Error {
    fn from(error: std::io::Error) -> (result: Self) {
        Error::IOError(error)
    }
}

impl FromSpecImpl<std::io::Error> for Error {
    open spec fn obeys_from_spec() -> bool {
        true
    }

    open spec fn from_spec(error: std::io::Error) -> Self {
        Error::IOError(error)
    }
}

impl From<nix::errno::Errno> for Error {
    fn from(errno: nix::errno::Errno) -> (error: Self) {
        Error::Errno(errno)
    }
}

impl FromSpecImpl<nix::errno::Errno> for Error {
    open spec fn obeys_from_spec() -> bool {
        true
    }

    open spec fn from_spec(errno: nix::errno::Errno) -> Self {
        Error::Errno(errno)
    }
}

/// Whether `r` is a failure that carries exactly the message `text`.
pub open spec fn fails_with<T>(r: Result<T, Error>, text: Seq<char>) -> bool {
    r matches Err(e) && e.is_message(text)
}

} // verus!

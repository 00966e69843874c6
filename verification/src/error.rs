use vstd::prelude::*;
use vstd::std_specs::convert::FromSpecImpl;
use vstd::string::StringExecFns;

verus! {

/// The source of a failure.
#[derive(Clone, Copy, PartialEq, Eq, Debug, Structural)]
pub enum ErrorKind {
    Mocasa,
    IOError,
    TomlDe,
    TomlSer,
    ParseFloat,
    Send,
    Receive,
    ReceiveTimeout,
    SystemTime,
    SerdeJson,
}

/// A failure: where it came from, and a message for the user.
#[derive(Clone, Debug)]
pub struct Error {
    pub kind: ErrorKind,
    pub message: String,
}

#[verifier::external_type_specification]
#[verifier::external_body]
pub struct ExIoError(std::io::Error);

impl ErrorKind {
    /// The display name of this kind.
    pub open spec fn name(self) -> Seq<char> {
        match self {
            ErrorKind::Mocasa => "Mocasa error"@,
            ErrorKind::IOError => "I/O error"@,
            ErrorKind::TomlDe => "TOML deserialization error"@,
            ErrorKind::TomlSer => "TOML serialization error"@,
            ErrorKind::ParseFloat => "parse float error"@,
            ErrorKind::Send => "send error"@,
            ErrorKind::Receive => "receive error"@,
            ErrorKind::ReceiveTimeout => "receive timeout error"@,
            ErrorKind::SystemTime => "system time error"@,
            ErrorKind::SerdeJson => "Serde JSON"@,
        }
    }

    pub fn as_str(&self) -> (name: &'static str)
        ensures
            name@ == self.name(),
    {
        match self {
            ErrorKind::Mocasa => "Mocasa error",
            ErrorKind::IOError => "I/O error",
            ErrorKind::TomlDe => "TOML deserialization error",
            ErrorKind::TomlSer => "TOML serialization error",
            ErrorKind::ParseFloat => "parse float error",
            ErrorKind::Send => "send error",
            ErrorKind::Receive => "receive error",
            ErrorKind::ReceiveTimeout => "receive timeout error",
            ErrorKind::SystemTime => "system time error",
            ErrorKind::SerdeJson => "Serde JSON",
        }
    }
}

impl Error {
    pub fn new(kind: ErrorKind, message: String) -> (error: Error)
        ensures
            error.kind == kind,
            error.message == message,
    {
        Error { kind, message }
    }

    /// What `to_text` renders: the kind's name, a colon and a blank, the message.
    pub open spec fn text(self) -> Seq<char> {
        self.kind.name() + ": "@ + self.message@
    }

    /// The error as shown to the user.
    pub fn to_text(&self) -> (text: String)
        ensures
            text@ == self.text(),
    {
        let mut text = String::from_str(self.kind.as_str());
        text.append(": ");
        text.append(self.message.as_str());
        text
    }

    /// A failure of this program's own rules, with the given message.
    pub fn mocasa(message: &str) -> (error: Error)
        ensures
            error.kind == ErrorKind::Mocasa,
            error.message@ == message@,
    {
        Error { kind: ErrorKind::Mocasa, message: String::from_str(message) }
    }

    /// An I/O failure on `file`, described by `reason`.
    pub fn for_path(file: &str, reason: &str) -> (error: Error)
        ensures
            error.kind == ErrorKind::IOError,
            error.message@ == file@ + ": "@ + reason@,
    {
        let mut message = String::from_str(file);
        message.append(": ");
        message.append(reason);
        Error { kind: ErrorKind::IOError, message }
    }
}

impl From<String> for Error {
    fn from(message: String) -> (error: Error) {
        Error::new(ErrorKind::Mocasa, message)
    }
}

impl FromSpecImpl<String> for Error {
    open spec fn obeys_from_spec() -> bool {
        true
    }

    open spec fn from_spec(message: String) -> Error {
        Error { kind: ErrorKind::Mocasa, message }
    }
}

/// `std::io::Error`'s `to_string`: the text that the error displays. Nothing is
/// claimed of the text, which the operating system words.
#[verifier::external_body]
fn io_error_text(error: &std::io::Error) -> (text: String) {
    error.to_string()
}

/// Passes a success through, and turns an I/O failure into an error that
/// names the file first.
pub fn for_file<T>(file: &str, result: Result<T, std::io::Error>) -> (checked: Result<T, Error>)
    ensures
        result is Ok ==> checked == Ok::<T, Error>(result->Ok_0),
        result is Err ==> checked is Err && checked->Err_0.kind == ErrorKind::IOError
            && checked->Err_0.message@.len() >= file@.len() + 2
            && checked->Err_0.message@.subrange(0, (file@.len() + 2) as int) == file@ + ": "@,
{
    match result {
        Ok(value) => Ok(value),
        Err(error) => {
            let reason = io_error_text(&error);
            let error = Error::for_path(file, reason.as_str());
            proof {
                reveal_strlit(": ");
                assert(error.message@.subrange(0, (file@.len() + 2) as int) =~= file@ + ": "@);
            }
            Err(error)
        },
    }
}

} // verus!

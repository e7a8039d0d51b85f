use vstd::prelude::*;

verus! {

#[verifier::external_type_specification]
#[verifier::external_body]
pub struct ExBacktrace(backtrace::Backtrace);

/// Relies on backtrace::Backtrace::new: captures the current call stack.
/// What it captures depends on the running process, so nothing is promised.
pub assume_specification[ backtrace::Backtrace::new ]() -> backtrace::Backtrace;

/// The kind of a failure, with the message that describes its cause.
#[derive(Debug, Clone, PartialEq, Eq)]
pub enum CustomErrorKind {
    ErrorMessage(String),
    PanicErrorMessage(String),
    IoError(String),
    JsonError(String),
    PoisonedError(String),
    ParseIntError(String),
    UrlParseError(String),
    ReqwestError(String),
    SystemTimeError(String),
    SmtpError(String),
    LettreEmailError(String),
    Failure(String),
    HandlebarsError(String),
    UserError(String),
    XmlError(String),
    SendErrorFile(String),
    RecvError(String),
}

/// A failure: its kind and the call stack captured where it was raised.
#[derive(Debug)]
pub struct CustomError {
    pub kind: CustomErrorKind,
    pub backtrace: backtrace::Backtrace,
}

impl CustomErrorKind {
    /// The message carried by a kind, whatever the kind.
    pub open spec fn spec_message(&self) -> Seq<char> {
        match self {
            CustomErrorKind::ErrorMessage(m) => m@,
            CustomErrorKind::PanicErrorMessage(m) => m@,
            CustomErrorKind::IoError(m) => m@,
            CustomErrorKind::JsonError(m) => m@,
            CustomErrorKind::PoisonedError(m) => m@,
            CustomErrorKind::ParseIntError(m) => m@,
            CustomErrorKind::UrlParseError(m) => m@,
            CustomErrorKind::ReqwestError(m) => m@,
            CustomErrorKind::SystemTimeError(m) => m@,
            CustomErrorKind::SmtpError(m) => m@,
            CustomErrorKind::LettreEmailError(m) => m@,
            CustomErrorKind::Failure(m) => m@,
            CustomErrorKind::HandlebarsError(m) => m@,
            CustomErrorKind::UserError(m) => m@,
            CustomErrorKind::XmlError(m) => m@,
            CustomErrorKind::SendErrorFile(m) => m@,
            CustomErrorKind::RecvError(m) => m@,
        }
    }

    /// The category label of a kind, as crash reports show it: the kind's name.
    pub open spec fn spec_label(&self) -> Seq<char> {
        match self {
            CustomErrorKind::ErrorMessage(_) => "ErrorMessage"@,
            CustomErrorKind::PanicErrorMessage(_) => "PanicErrorMessage"@,
            CustomErrorKind::IoError(_) => "IoError"@,
            CustomErrorKind::JsonError(_) => "JsonError"@,
            CustomErrorKind::PoisonedError(_) => "PoisonedError"@,
            CustomErrorKind::ParseIntError(_) => "ParseIntError"@,
            CustomErrorKind::UrlParseError(_) => "UrlParseError"@,
            CustomErrorKind::ReqwestError(_) => "ReqwestError"@,
            CustomErrorKind::SystemTimeError(_) => "SystemTimeError"@,
            CustomErrorKind::SmtpError(_) => "SmtpError"@,
            CustomErrorKind::LettreEmailError(_) => "LettreEmailError"@,
            CustomErrorKind::Failure(_) => "Failure"@,
            CustomErrorKind::HandlebarsError(_) => "HandlebarsError"@,
            CustomErrorKind::UserError(_) => "UserError"@,
            CustomErrorKind::XmlError(_) => "XmlError"@,
            CustomErrorKind::SendErrorFile(_) => "SendErrorFile"@,
            CustomErrorKind::RecvError(_) => "RecvError"@,
        }
    }

    /// The category label of the kind.
    pub fn kind_name(&self) -> (r: String)
        ensures
            r@ == self.spec_label(),
    {
        let l = match self {
            CustomErrorKind::ErrorMessage(_) => "ErrorMessage",
            CustomErrorKind::PanicErrorMessage(_) => "PanicErrorMessage",
            CustomErrorKind::IoError(_) => "IoError",
            CustomErrorKind::JsonError(_) => "JsonError",
            CustomErrorKind::PoisonedError(_) => "PoisonedError",
            CustomErrorKind::ParseIntError(_) => "ParseIntError",
            CustomErrorKind::UrlParseError(_) => "UrlParseError",
            CustomErrorKind::ReqwestError(_) => "ReqwestError",
            CustomErrorKind::SystemTimeError(_) => "SystemTimeError",
            CustomErrorKind::SmtpError(_) => "SmtpError",
            CustomErrorKind::LettreEmailError(_) => "LettreEmailError",
            CustomErrorKind::Failure(_) => "Failure",
            CustomErrorKind::HandlebarsError(_) => "HandlebarsError",
            CustomErrorKind::UserError(_) => "UserError",
            CustomErrorKind::XmlError(_) => "XmlError",
            CustomErrorKind::SendErrorFile(_) => "SendErrorFile",
            CustomErrorKind::RecvError(_) => "RecvError",
        };
        String::from_str(l)
    }

    /// The text of the kind: its message.
    pub fn to_string(&self) -> (r: String)
        ensures
            r@ == self.spec_message(),
    {
        let m = match self {
            CustomErrorKind::ErrorMessage(m) => m,
            CustomErrorKind::PanicErrorMessage(m) => m,
            CustomErrorKind::IoError(m) => m,
            CustomErrorKind::JsonError(m) => m,
            CustomErrorKind::PoisonedError(m) => m,
            CustomErrorKind::ParseIntError(m) => m,
            CustomErrorKind::UrlParseError(m) => m,
            CustomErrorKind::ReqwestError(m) => m,
            CustomErrorKind::SystemTimeError(m) => m,
            CustomErrorKind::SmtpError(m) => m,
            CustomErrorKind::LettreEmailError(m) => m,
            CustomErrorKind::Failure(m) => m,
            CustomErrorKind::HandlebarsError(m) => m,
            CustomErrorKind::UserError(m) => m,
            CustomErrorKind::XmlError(m) => m,
            CustomErrorKind::SendErrorFile(m) => m,
            CustomErrorKind::RecvError(m) => m,
        };
        m.clone()
    }
}

impl CustomError {
    /// A generic failure with the given message.
    pub fn from_message(message: &str) -> (r: CustomError)
        ensures
            r.kind is ErrorMessage,
            r.kind.spec_message() == message@,
    {
        CustomError {
            kind: CustomErrorKind::ErrorMessage(String::from_str(message)),
            backtrace: backtrace::Backtrace::new(),
        }
    }

    /// A failure caused by what the operator asked for.
    pub fn user_error(message: &str) -> (r: CustomError)
        ensures
            r.kind is UserError,
            r.kind.spec_message() == message@,
    {
        CustomError {
            kind: CustomErrorKind::UserError(String::from_str(message)),
            backtrace: backtrace::Backtrace::new(),
        }
    }

    /// A failure turned from a panic, with the stack captured at the panic.
    pub fn from_panic_message(message: &str, backtrace: backtrace::Backtrace) -> (r: CustomError)
        ensures
            r.kind is PanicErrorMessage,
            r.kind.spec_message() == message@,
    {
        CustomError { kind: CustomErrorKind::PanicErrorMessage(String::from_str(message)), backtrace }
    }

    /// A failure of the given kind, with the current stack.
    pub fn from_kind(kind: CustomErrorKind) -> (r: CustomError)
        ensures
            r.kind == kind,
    {
        CustomError { kind, backtrace: backtrace::Backtrace::new() }
    }

    /// Whether the failure was caused by the operator's input.
    pub fn is_user_error(&self) -> (r: bool)
        ensures
            r == (self.kind is UserError),
    {
        match self.kind {
            CustomErrorKind::UserError(_) => true,
            _ => false,
        }
    }
}

} // verus!

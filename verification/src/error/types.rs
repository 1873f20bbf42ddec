//! One error type for transports, translators and the engine.

use vstd::prelude::*;
use vstd::string::*;
use crate::text::join2;

verus! {

/// What went wrong. A variant that wraps a failure of the operating system,
/// of the serial driver or of the configuration parser carries that
/// failure's own message as text.
#[derive(Debug, Clone, PartialEq, Eq)]
pub enum Error {
    /// The session is not established, or the transport failed.
    Connection(String),
    /// An input or output operation failed.
    Io(String),
    /// The serial port reported a failure.
    Serial(String),
    /// A caller that insists on a prompt did not see it in time.
    Timeout,
    /// The device is not connected.
    NotConnected,
    /// The configuration text could not be parsed.
    ConfigParse(String),
    /// The configuration is well-formed but breaks a rule.
    ConfigValidation(String),
    /// The configuration could not be read.
    ConfigRead(String),
    /// The TOML reader rejected the text.
    Toml(String),
    /// No reader exists for this kind of file.
    UnsupportedFormat(String),
    /// There is no configuration file at the given place.
    ConfigNotFound(String),
}

/// The variant of an [`Error`], without its detail.
#[derive(Debug, Clone, Copy, PartialEq, Eq, Structural)]
pub enum ErrorKind {
    Connection,
    Io,
    Serial,
    Timeout,
    NotConnected,
    ConfigParse,
    ConfigValidation,
    ConfigRead,
    Toml,
    UnsupportedFormat,
    ConfigNotFound,
}

/// An error as contracts see it: its kind and the characters of its detail
/// (empty for the kinds that carry none).
pub struct ErrorModel {
    pub kind: ErrorKind,
    pub detail: Seq<char>,
}

impl View for Error {
    type V = ErrorModel;

    open spec fn view(&self) -> ErrorModel {
        match self {
            Error::Connection(d) => ErrorModel { kind: ErrorKind::Connection, detail: d@ },
            Error::Io(d) => ErrorModel { kind: ErrorKind::Io, detail: d@ },
            Error::Serial(d) => ErrorModel { kind: ErrorKind::Serial, detail: d@ },
            Error::Timeout => ErrorModel { kind: ErrorKind::Timeout, detail: Seq::empty() },
            Error::NotConnected => ErrorModel {
                kind: ErrorKind::NotConnected,
                detail: Seq::empty(),
            },
            Error::ConfigParse(d) => ErrorModel { kind: ErrorKind::ConfigParse, detail: d@ },
            Error::ConfigValidation(d) => ErrorModel {
                kind: ErrorKind::ConfigValidation,
                detail: d@,
            },
            Error::ConfigRead(d) => ErrorModel { kind: ErrorKind::ConfigRead, detail: d@ },
            Error::Toml(d) => ErrorModel { kind: ErrorKind::Toml, detail: d@ },
            Error::UnsupportedFormat(d) => ErrorModel {
                kind: ErrorKind::UnsupportedFormat,
                detail: d@,
            },
            Error::ConfigNotFound(d) => ErrorModel { kind: ErrorKind::ConfigNotFound, detail: d@ },
        }
    }
}

/// The model of a validation error with the given detail.
pub open spec fn validation_error(detail: Seq<char>) -> ErrorModel {
    ErrorModel { kind: ErrorKind::ConfigValidation, detail }
}

/// The model of a connection error with the given detail.
pub open spec fn connection_error(detail: Seq<char>) -> ErrorModel {
    ErrorModel { kind: ErrorKind::Connection, detail }
}

/// The words that open the message of each kind of error.
pub open spec fn headline(kind: ErrorKind) -> Seq<char> {
    match kind {
        ErrorKind::Connection => "Ошибка соединения: "@,
        ErrorKind::Io => "Ошибка ввода/вывода: "@,
        ErrorKind::Serial => "Ошибка Serial порта: "@,
        ErrorKind::Timeout => "Таймаут операции"@,
        ErrorKind::NotConnected => "Устройство не подключено"@,
        ErrorKind::ConfigParse => "Ошибка Парсинга конфигурации: "@,
        ErrorKind::ConfigValidation => "Ошибка валидации конфигурации: "@,
        ErrorKind::ConfigRead => "Ошибка чтения конфигурации: "@,
        ErrorKind::Toml => "Ошибка Toml: "@,
        ErrorKind::UnsupportedFormat => "Неподерживаемый Формат конфигурации: "@,
        ErrorKind::ConfigNotFound => "Конфигурационный файл не найден: "@,
    }
}

/// The message shown for an error: the headline of its kind, then its detail.
pub open spec fn message(error: ErrorModel) -> Seq<char> {
    headline(error.kind) + error.detail
}

impl Error {
    /// The variant of this error.
    pub fn kind(&self) -> (kind: ErrorKind)
        ensures
            kind == self@.kind,
    {
        match self {
            Error::Connection(_) => ErrorKind::Connection,
            Error::Io(_) => ErrorKind::Io,
            Error::Serial(_) => ErrorKind::Serial,
            Error::Timeout => ErrorKind::Timeout,
            Error::NotConnected => ErrorKind::NotConnected,
            Error::ConfigParse(_) => ErrorKind::ConfigParse,
            Error::ConfigValidation(_) => ErrorKind::ConfigValidation,
            Error::ConfigRead(_) => ErrorKind::ConfigRead,
            Error::Toml(_) => ErrorKind::Toml,
            Error::UnsupportedFormat(_) => ErrorKind::UnsupportedFormat,
            Error::ConfigNotFound(_) => ErrorKind::ConfigNotFound,
        }
    }

    /// The message of this error, as a step's failure records it.
    pub fn to_string(&self) -> (text: String)
        ensures
            text@ == message(self@),
    {
        match self {
            Error::Connection(d) => join2("Ошибка соединения: ", d.as_str()),
            Error::Io(d) => join2("Ошибка ввода/вывода: ", d.as_str()),
            Error::Serial(d) => join2("Ошибка Serial порта: ", d.as_str()),
            Error::Timeout => {
                assert("Таймаут операции"@ + Seq::<char>::empty() =~= "Таймаут операции"@);
                String::from_str("Таймаут операции")
            },
            Error::NotConnected => {
                assert("Устройство не подключено"@ + Seq::<char>::empty()
                    =~= "Устройство не подключено"@);
                String::from_str("Устройство не подключено")
            },
            Error::ConfigParse(d) => join2("Ошибка Парсинга конфигурации: ", d.as_str()),
            Error::ConfigValidation(d) => join2("Ошибка валидации конфигурации: ", d.as_str()),
            Error::ConfigRead(d) => join2("Ошибка чтения конфигурации: ", d.as_str()),
            Error::Toml(d) => join2("Ошибка Toml: ", d.as_str()),
            Error::UnsupportedFormat(d) => join2(
                "Неподерживаемый Формат конфигурации: ",
                d.as_str(),
            ),
            Error::ConfigNotFound(d) => join2("Конфигурационный файл не найден: ", d.as_str()),
        }
    }
}

} // verus!

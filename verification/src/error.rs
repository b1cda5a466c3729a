//! What can go wrong during a scrape, and how it is reported.

use vstd::prelude::*;

verus! {

/// The status every failed scrape is answered with.
pub const INTERNAL_SERVER_ERROR: u16 = 500;

/// Why a scrape failed. Whatever the reason, the scrape as a whole fails.
#[derive(Clone, Debug)]
pub enum Error {
    /// The Prometheus library refused a metric or could not encode the
    /// metrics. Holds the library's own words.
    PrometheusLibrary(String),
    /// A command could not be run or its output could not be read. Holds the
    /// operating system's words.
    Io(String),
    /// A command's output is no floating-point number.
    Parse,
    /// A command's output, or the encoded exposition, is no UTF-8.
    FromUtf8,
}

/// The body of the answer to a failed scrape.
#[derive(Clone, Debug)]
pub struct ErrorResponse {
    /// The status of the answer.
    pub code: u16,
    /// The error, in words.
    pub message: String,
}

impl Error {
    /// The error in words.
    pub open spec fn message_text(&self) -> Seq<char> {
        match self {
            Error::PrometheusLibrary(detail) => "An error occurred in the Prometheus library: "@
                + detail@,
            Error::Io(detail) => "IO Exception: "@ + detail@,
            Error::Parse => "Failed to parse command output to a floating point value"@,
            Error::FromUtf8 => "Failed to convert data to UTF-8"@,
        }
    }

    /// The error in words.
    pub fn message(&self) -> (text: String)
        ensures
            text@ == self.message_text(),
    {
        match self {
            Error::PrometheusLibrary(detail) => {
                "An error occurred in the Prometheus library: ".to_owned().concat(detail.as_str())
            },
            Error::Io(detail) => "IO Exception: ".to_owned().concat(detail.as_str()),
            Error::Parse => "Failed to parse command output to a floating point value".to_owned(),
            Error::FromUtf8 => "Failed to convert data to UTF-8".to_owned(),
        }
    }

    /// The status a scrape that failed with this error is answered with: the
    /// same for every error.
    pub fn status_code(&self) -> (code: u16)
        ensures
            code == INTERNAL_SERVER_ERROR,
    {
        INTERNAL_SERVER_ERROR
    }

    /// Every error has something to say.
    pub proof fn lemma_message_is_not_empty(self)
        ensures
            self.message_text().len() > 0,
    {
        reveal_strlit("An error occurred in the Prometheus library: ");
        reveal_strlit("IO Exception: ");
        reveal_strlit("Failed to parse command output to a floating point value");
        reveal_strlit("Failed to convert data to UTF-8");
    }
}

impl ErrorResponse {
    /// The answer to a scrape that failed with `error`.
    pub fn from(error: &Error) -> (response: ErrorResponse)
        ensures
            response.code == INTERNAL_SERVER_ERROR,
            response.message@ == error.message_text(),
    {
        ErrorResponse { code: error.status_code(), message: error.message() }
    }
}

} // verus!

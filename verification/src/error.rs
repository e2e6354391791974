use vstd::prelude::*;

verus! {

/// Errors raised by the tunnel.
#[derive(Debug)]
pub enum FusoError {
    BadMagic,
    Timeout,
    Abort,
    AuthError,
    Cancel,
    InvalidConnection,
    InvaledSetter,
    BadRpcCall(u64),
    InvalidPort,
    InvalidExposeType,
    NotResponse,
    Custom(String),
    StdIo(std::io::Error),
}

/// The derived `Debug` text of an error that holds no I/O error.
pub uninterp spec fn fuso_error_text(e: FusoError) -> Seq<char>;

impl FusoError {
    /// The text of the error, as the tunnel reports it: the error written out
    /// with its derived `Debug` format. For an error that holds no I/O error it
    /// is the same text for the same error.
    pub fn to_text(&self) -> (r: String)
        ensures
            !(*self is StdIo) ==> r@ == fuso_error_text(*self),
    {
        debug_text(self)
    }
}

/// `format!("{:?}", e)`: the derived `Debug` text of an error. For an error that
/// holds no I/O error the text is named (`fuso_error_text`), not spelled out:
/// std does not fix the derived format. Nothing is stated of the text of an I/O
/// error, which can hold the system's message for its code.
#[verifier::external_body]
fn debug_text(e: &FusoError) -> (r: String)
    ensures
        !(*e is StdIo) ==> r@ == fuso_error_text(*e),
{
    format!("{:?}", e)
}

/// `std::io::Error`, carried through unchanged.
#[verifier::external_type_specification]
#[verifier::external_body]
pub struct ExIoError(std::io::Error);

impl From<std::io::Error> for FusoError {
    /// An I/O error.
    fn from(value: std::io::Error) -> (r: Self) {
        FusoError::StdIo(value)
    }
}

impl vstd::std_specs::convert::FromSpecImpl<std::io::Error> for FusoError {
    open spec fn obeys_from_spec() -> bool {
        true
    }

    open spec fn from_spec(v: std::io::Error) -> FusoError {
        FusoError::StdIo(v)
    }
}

impl From<String> for FusoError {
    /// A message of its own.
    fn from(value: String) -> (r: Self) {
        FusoError::Custom(value)
    }
}

impl vstd::std_specs::convert::FromSpecImpl<String> for FusoError {
    open spec fn obeys_from_spec() -> bool {
        true
    }

    open spec fn from_spec(v: String) -> FusoError {
        FusoError::Custom(v)
    }
}

/// Result type used across the crate.
pub type Result<T> = core::result::Result<T, FusoError>;

} // verus!

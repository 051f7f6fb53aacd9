//! The front end's error type.

use vstd::prelude::*;
use vstd::string::to_string_from_display_ensures;

verus! {

/// An error of the front end, carried as its message.
#[derive(Debug, Clone)]
pub struct OxiPasteError {
    message: String,
}

impl View for OxiPasteError {
    type V = Seq<char>;

    closed spec fn view(&self) -> Seq<char> {
        self.message@
    }
}

impl OxiPasteError {
    pub closed spec fn message_string(&self) -> String {
        self.message
    }

    /// An error with this message.
    pub fn new(message: &str) -> (r: Self)
        ensures
            r@ == message@,
    {
        OxiPasteError { message: message.to_owned() }
    }

    /// The message, as the error is shown.
    pub fn to_string(&self) -> (r: String)
        ensures
            r@ == self@,
    {
        self.message.clone()
    }
}

/// The front end's error for any error: its message is what the error shows.
pub fn into_general_error<E: std::fmt::Display>(error_opt: Option<E>) -> (r: Option<OxiPasteError>)
    ensures
        r is Some <==> error_opt is Some,
        r is Some ==> to_string_from_display_ensures::<E>(&error_opt->Some_0, r->Some_0.message_string()),
{
    match error_opt {
        Some(error) => Some(OxiPasteError { message: error.to_string() }),
        None => None,
    }
}

} // verus!

//! JSON text on its way into the library.

use vstd::prelude::*;

verus! {

/// A text that is meant to be JSON. Nothing is known of it until it is read.
pub struct Json(pub String);

impl View for Json {
    type V = Seq<char>;

    open spec fn view(&self) -> Seq<char> {
        self.0@
    }
}

impl Json {
    pub fn new(text: String) -> (r: Self)
        ensures
            r@ == text@,
    {
        Json(text)
    }

    /// The text.
    pub fn to_string_ref(&self) -> (r: &String)
        ensures
            r@ == self@,
    {
        &self.0
    }
}

} // verus!

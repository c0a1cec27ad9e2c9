//! A single named value.

use crate::text::{push_quoted, quoted};
use crate::value::{json_text, Value};
use vstd::prelude::*;
use vstd::string::StringExecFns;

verus! {

pub struct Property {
    pub name: String,
    pub value: Value,
}

impl Property {
    pub fn new(name: String, value: Value) -> (r: Self)
        ensures
            r.name == name,
            r.value == value,
    {
        Property { name, value }
    }

    /// The text of the property as it stands in a JSON object that is
    /// written for reading: its quoted name, a colon, a space, its value.
    pub open spec fn geo_json(&self) -> Seq<char> {
        quoted(self.name@) + ": "@ + json_text(self.value@)
    }

    /// Writes the property.
    pub fn to_geo_json(&self) -> (r: String)
        ensures
            r@ == self.geo_json(),
    {
        let mut out = String::new();
        push_quoted(&mut out, self.name.as_str());
        out.append(": ");
        self.value.push_json(&mut out);
        assert(out@ == self.geo_json());
        out
    }
}

} // verus!

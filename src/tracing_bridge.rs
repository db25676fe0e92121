//! The decisions of the bridge that forwards the engine's schedule spans to
//! the telemetry timeline: which span field names a schedule, and the label
//! a schedule span gets.

use vstd::prelude::*;
use vstd::string::StrSliceExecFns;

verus! {

/// The layer that forwards schedule spans as named scopes. The subscriber
/// hooks themselves live with the application.
pub struct MicromegasBridgeLayer;

/// Collects the `name` field of a span while its fields are visited.
pub struct NameVisitor {
    pub name: Option<String>,
}

/// Whether a span field is the one that names a schedule.
pub fn is_name_field(field: &str) -> (r: bool)
    ensures
        r == (field@ == "name"@),
{
    proof {
        reveal_strlit("name");
    }
    if field.unicode_len() != 4 {
        return false;
    }
    let r = field.get_char(0) == 'n' && field.get_char(1) == 'a' && field.get_char(2) == 'm' && field.get_char(3)
        == 'e';
    proof {
        if r {
            assert(field@ =~= "name"@);
        }
    }
    r
}

impl NameVisitor {
    /// A visitor that has seen no name yet.
    pub fn new() -> (r: Self)
        ensures
            r.name is None,
    {
        NameVisitor { name: None }
    }

    /// Records the text of a visited field if the field is `name`; other
    /// fields are ignored.
    pub fn record_field(&mut self, field: &str, text: String)
        ensures
            field@ == "name"@ ==> final(self).name == Some(text),
            field@ != "name"@ ==> final(self).name == old(self).name,
    {
        if is_name_field(field) {
            self.name = Some(text);
        }
    }

    /// The label of the schedule: the recorded name, or an empty label.
    pub fn label(self) -> (r: String)
        ensures
            self.name matches Some(n) ==> r == n,
            self.name is None ==> r@.len() == 0,
    {
        match self.name {
            Some(n) => n,
            None => String::new(),
        }
    }
}

} // verus!

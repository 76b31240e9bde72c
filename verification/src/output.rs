//! What the program can write out: an export, or the theme itself.

use vstd::prelude::*;

verus! {

/// A kind of output: the rendering of the exporter of the given name, or the
/// theme as a JSON or a TOML document.
pub enum Output {
    Exporter(String),
    JSON,
    TOML,
}

impl Output {
    /// The label of this output.
    pub open spec fn label_of(self) -> Seq<char> {
        match self {
            Output::Exporter(name) => "Export/"@ + name@,
            Output::JSON => "Save/JSON"@,
            Output::TOML => "Save/TOML"@,
        }
    }

    /// The label of this output: `Export/` and the exporter's name, or
    /// `Save/` and the document's format.
    pub fn to_string(&self) -> (text: String)
        ensures
            text@ == self.label_of(),
    {
        match self {
            Output::Exporter(name) => String::from_str("Export/").concat(name.as_str()),
            Output::JSON => String::from_str("Save/JSON"),
            Output::TOML => String::from_str("Save/TOML"),
        }
    }
}

} // verus!

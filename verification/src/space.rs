//! The colour models of a theme, and their tags in a persisted theme.

use crate::text::{chars_of, same_chars};
use vstd::prelude::*;

verus! {

/// A colour space.  A theme is edited in one of the first four; the others
/// serve conversion only and have no persisted form.
#[derive(Clone, Copy, PartialEq, Eq, Debug, Structural)]
pub enum SpaceSerDe {
    HSV,
    CIELCH,
    OKLCH,
    JZCZHZ,
    SRGB,
    LRGB,
    XYZ,
    CIELAB,
    OKLAB,
    JZAZBZ,
}

impl SpaceSerDe {
    /// Whether a persisted theme can name this space as its model.
    pub open spec fn persisted(self) -> bool {
        self is HSV || self is CIELCH || self is OKLCH || self is JZCZHZ
    }

    /// The tag of this space in a persisted theme.
    pub open spec fn tag_of(self) -> Seq<char> {
        match self {
            SpaceSerDe::HSV => "HSV"@,
            SpaceSerDe::CIELCH => "CIELCH"@,
            SpaceSerDe::OKLCH => "OKLCH"@,
            SpaceSerDe::JZCZHZ => "JZCZHZ"@,
            SpaceSerDe::SRGB => "SRGB"@,
            SpaceSerDe::LRGB => "LRGB"@,
            SpaceSerDe::XYZ => "XYZ"@,
            SpaceSerDe::CIELAB => "CIELAB"@,
            SpaceSerDe::OKLAB => "OKLAB"@,
            SpaceSerDe::JZAZBZ => "JZAZBZ"@,
        }
    }

    /// The space that a persisted theme means by `tag`.
    pub open spec fn of_tag(tag: Seq<char>) -> Option<SpaceSerDe> {
        if tag == "HSV"@ {
            Some(SpaceSerDe::HSV)
        } else if tag == "CIELCH"@ {
            Some(SpaceSerDe::CIELCH)
        } else if tag == "OKLCH"@ {
            Some(SpaceSerDe::OKLCH)
        } else if tag == "JZCZHZ"@ {
            Some(SpaceSerDe::JZCZHZ)
        } else {
            None
        }
    }

    /// Whether a persisted theme can name this space as its model.
    pub fn is_persisted(&self) -> (yes: bool)
        ensures
            yes == self.persisted(),
    {
        match self {
            SpaceSerDe::HSV | SpaceSerDe::CIELCH | SpaceSerDe::OKLCH | SpaceSerDe::JZCZHZ => true,
            _ => false,
        }
    }

    /// The tag under which a theme persists this model; none for a space
    /// that has no persisted form.
    pub fn tag(&self) -> (tag: Option<String>)
        ensures
            match tag {
                Some(t) => self.persisted() && t@ == self.tag_of(),
                None => !self.persisted(),
            },
    {
        match self {
            SpaceSerDe::HSV => Some(String::from_str("HSV")),
            SpaceSerDe::CIELCH => Some(String::from_str("CIELCH")),
            SpaceSerDe::OKLCH => Some(String::from_str("OKLCH")),
            SpaceSerDe::JZCZHZ => Some(String::from_str("JZCZHZ")),
            _ => None,
        }
    }

    /// The model that a persisted theme names by `tag`; none for any other
    /// text.
    pub fn from_tag(tag: &str) -> (model: Option<SpaceSerDe>)
        ensures
            model == SpaceSerDe::of_tag(tag@),
    {
        let given = chars_of(tag);
        if same_chars(&given, &chars_of("HSV")) {
            Some(SpaceSerDe::HSV)
        } else if same_chars(&given, &chars_of("CIELCH")) {
            Some(SpaceSerDe::CIELCH)
        } else if same_chars(&given, &chars_of("OKLCH")) {
            Some(SpaceSerDe::OKLCH)
        } else if same_chars(&given, &chars_of("JZCZHZ")) {
            Some(SpaceSerDe::JZCZHZ)
        } else {
            None
        }
    }
}

/// Reading back the tag of a model that has a persisted form gives that
/// model, and a tag that reads as a model is that model's tag: the tags and
/// the persisted models correspond one to one.
pub proof fn lemma_tag_round_trip(model: SpaceSerDe, tag: Seq<char>)
    ensures
        model.persisted() ==> SpaceSerDe::of_tag(model.tag_of()) == Some(model),
        SpaceSerDe::of_tag(tag) is Some ==> {
            &&& SpaceSerDe::of_tag(tag)->0.persisted()
            &&& SpaceSerDe::of_tag(tag)->0.tag_of() == tag
        },
        !model.persisted() ==> SpaceSerDe::of_tag(model.tag_of()) is None,
{
    reveal_strlit("HSV");
    reveal_strlit("CIELCH");
    reveal_strlit("OKLCH");
    reveal_strlit("JZCZHZ");
    reveal_strlit("SRGB");
    reveal_strlit("LRGB");
    reveal_strlit("XYZ");
    reveal_strlit("CIELAB");
    reveal_strlit("OKLAB");
    reveal_strlit("JZAZBZ");
    assert("HSV"@.len() == 3);
    assert("CIELCH"@.len() == 6 && "CIELCH"@[0] == 'C');
    assert("OKLCH"@.len() == 5 && "OKLCH"@[4] == 'H');
    assert("JZCZHZ"@.len() == 6 && "JZCZHZ"@[0] == 'J');
    assert("SRGB"@.len() == 4);
    assert("LRGB"@.len() == 4);
    assert("XYZ"@.len() == 3 && "XYZ"@[0] == 'X' && "HSV"@[0] == 'H');
    assert("CIELAB"@.len() == 6 && "CIELAB"@[4] == 'A' && "CIELCH"@[4] == 'C' && "JZCZHZ"@[4]
        == 'H');
    assert("OKLAB"@.len() == 5 && "OKLAB"@[4] == 'B');
    assert("JZAZBZ"@.len() == 6 && "JZAZBZ"@[2] == 'A' && "JZCZHZ"@[2] == 'C' && "CIELCH"@[2]
        == 'E');
}

} // verus!

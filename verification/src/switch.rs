//! Switches: the logical keys of a layout, and the side a switch sits on.

use vstd::prelude::*;

verus! {

/// The half of the keyboard a switch belongs to, which affects mirroring
/// when the overlay is drawn.
#[derive(Clone, Copy, Debug, PartialEq, Eq, Structural)]
pub enum Side {
    Left,
    Right,
}

/// The serialized name of a side.
pub open spec fn spec_side_name(side: Side) -> Seq<char> {
    match side {
        Side::Left => "left"@,
        Side::Right => "right"@,
    }
}

/// The side a lower-cased name denotes, if any.
pub open spec fn spec_side_from(s: Seq<char>) -> Option<Side> {
    if s == "left"@ {
        Some(Side::Left)
    } else if s == "right"@ {
        Some(Side::Right)
    } else {
        None
    }
}

/// A side name that is neither `left` nor `right`.
#[derive(Clone, Debug)]
pub struct InvalidSide(pub String);

impl Side {
    /// The lower-case name of this side.
    pub fn name(&self) -> (r: String)
        ensures
            r@ == spec_side_name(*self),
    {
        match self {
            Side::Left => "left".to_owned(),
            Side::Right => "right".to_owned(),
        }
    }

    /// Parses a side name, ignoring case as the configured form may use
    /// any: the input is lower-cased and then matched exactly.  Any other
    /// name is rejected with the string it carried.
    pub fn parse(s: &str) -> (r: Result<Side, InvalidSide>)
        ensures
            match r {
                Ok(side) => spec_side_from(crate::util::lower_of(s@)) == Some(side),
                Err(e) => spec_side_from(crate::util::lower_of(s@)) is None && e.0@ == s@,
            },
    {
        let lowered = crate::util::to_lowercase(s);
        if crate::util::str_eq(lowered.as_str(), "left") {
            Ok(Side::Left)
        } else if crate::util::str_eq(lowered.as_str(), "right") {
            Ok(Side::Right)
        } else {
            Err(InvalidSide(s.to_owned()))
        }
    }
}

/// One switch of the layout.  Its screen position is presentation data kept
/// by the drawing layer; the engine reads only the side.
#[derive(Clone, Copy, Debug, PartialEq)]
pub struct Switch {
    pub side: Option<Side>,
}

} // verus!

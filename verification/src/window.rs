//! Window placement data: where the overlay window sits on a monitor.
//! Moving the window is the shell's concern; the data and its serialized
//! names live here.

use vstd::prelude::*;

use crate::util::str_eq;

verus! {

/// The corner or edge of the monitor the window is anchored to.
#[derive(Clone, Copy, Debug, PartialEq, Eq, Structural)]
pub enum WindowAnchor {
    TopLeft,
    TopCenter,
    TopRight,
    BottomLeft,
    BottomCenter,
    BottomRight,
    CenterLeft,
    Center,
    CenterRight,
}

/// The serialized name of an anchor.
pub open spec fn spec_anchor_name(a: WindowAnchor) -> Seq<char> {
    match a {
        WindowAnchor::TopLeft => "TopLeft"@,
        WindowAnchor::TopCenter => "TopCenter"@,
        WindowAnchor::TopRight => "TopRight"@,
        WindowAnchor::BottomLeft => "BottomLeft"@,
        WindowAnchor::BottomCenter => "BottomCenter"@,
        WindowAnchor::BottomRight => "BottomRight"@,
        WindowAnchor::CenterLeft => "CenterLeft"@,
        WindowAnchor::Center => "Center"@,
        WindowAnchor::CenterRight => "CenterRight"@,
    }
}

/// The anchor a name denotes, if any.
pub open spec fn spec_anchor_from(s: Seq<char>) -> Option<WindowAnchor> {
    if s == "TopLeft"@ {
        Some(WindowAnchor::TopLeft)
    } else if s == "TopCenter"@ {
        Some(WindowAnchor::TopCenter)
    } else if s == "TopRight"@ {
        Some(WindowAnchor::TopRight)
    } else if s == "BottomLeft"@ {
        Some(WindowAnchor::BottomLeft)
    } else if s == "BottomCenter"@ {
        Some(WindowAnchor::BottomCenter)
    } else if s == "BottomRight"@ {
        Some(WindowAnchor::BottomRight)
    } else if s == "CenterLeft"@ {
        Some(WindowAnchor::CenterLeft)
    } else if s == "Center"@ {
        Some(WindowAnchor::Center)
    } else if s == "CenterRight"@ {
        Some(WindowAnchor::CenterRight)
    } else {
        None
    }
}

/// An anchor name that names no anchor.
#[derive(Clone, Debug)]
pub struct InvalidWindowAnchor(pub String);

impl Default for WindowAnchor {
    /// The window is centered unless the configuration says otherwise.
    fn default() -> (r: Self)
        ensures
            r == WindowAnchor::Center,
    {
        WindowAnchor::Center
    }
}

impl WindowAnchor {
    /// The serialized name of this anchor.
    pub fn name(&self) -> (r: String)
        ensures
            r@ == spec_anchor_name(*self),
    {
        match self {
            WindowAnchor::TopLeft => "TopLeft".to_owned(),
            WindowAnchor::TopCenter => "TopCenter".to_owned(),
            WindowAnchor::TopRight => "TopRight".to_owned(),
            WindowAnchor::BottomLeft => "BottomLeft".to_owned(),
            WindowAnchor::BottomCenter => "BottomCenter".to_owned(),
            WindowAnchor::BottomRight => "BottomRight".to_owned(),
            WindowAnchor::CenterLeft => "CenterLeft".to_owned(),
            WindowAnchor::Center => "Center".to_owned(),
            WindowAnchor::CenterRight => "CenterRight".to_owned(),
        }
    }

    /// Parses an anchor name; any other name is rejected with the name it
    /// carried.
    pub fn parse(s: &str) -> (r: Result<WindowAnchor, InvalidWindowAnchor>)
        ensures
            match r {
                Ok(a) => spec_anchor_from(s@) == Some(a),
                Err(e) => spec_anchor_from(s@) is None && e.0@ == s@,
            },
    {
        if str_eq(s, "TopLeft") {
            Ok(WindowAnchor::TopLeft)
        } else if str_eq(s, "TopCenter") {
            Ok(WindowAnchor::TopCenter)
        } else if str_eq(s, "TopRight") {
            Ok(WindowAnchor::TopRight)
        } else if str_eq(s, "BottomLeft") {
            Ok(WindowAnchor::BottomLeft)
        } else if str_eq(s, "BottomCenter") {
            Ok(WindowAnchor::BottomCenter)
        } else if str_eq(s, "BottomRight") {
            Ok(WindowAnchor::BottomRight)
        } else if str_eq(s, "CenterLeft") {
            Ok(WindowAnchor::CenterLeft)
        } else if str_eq(s, "Center") {
            Ok(WindowAnchor::Center)
        } else if str_eq(s, "CenterRight") {
            Ok(WindowAnchor::CenterRight)
        } else {
            Err(InvalidWindowAnchor(s.to_owned()))
        }
    }
}

/// Where the overlay window sits: a monitor, an anchor on it, and an
/// offset from the anchor.
#[derive(Clone, Copy, Debug, PartialEq)]
pub struct WindowPosition {
    pub monitor: usize,
    pub anchor: WindowAnchor,
    pub offset: (i32, i32),
}

impl Default for WindowPosition {
    /// Centered on the first monitor with no offset.
    fn default() -> (r: Self)
        ensures
            r == (WindowPosition { monitor: 0, anchor: WindowAnchor::Center, offset: (0, 0) }),
    {
        WindowPosition { monitor: 0, anchor: WindowAnchor::Center, offset: (0, 0) }
    }
}

/// Every anchor's name parses back to the same anchor.
pub proof fn lemma_anchor_name_round_trip(a: WindowAnchor)
    ensures
        spec_anchor_from(spec_anchor_name(a)) == Some(a),
{
    reveal_strlit("TopLeft");
    reveal_strlit("TopCenter");
    reveal_strlit("TopRight");
    reveal_strlit("BottomLeft");
    reveal_strlit("BottomCenter");
    reveal_strlit("BottomRight");
    reveal_strlit("CenterLeft");
    reveal_strlit("Center");
    reveal_strlit("CenterRight");
    assert("TopLeft"@.len() == 7);
    assert("TopCenter"@.len() == 9);
    assert("TopRight"@.len() == 8);
    assert("BottomLeft"@.len() == 10);
    assert("BottomCenter"@.len() == 12);
    assert("BottomRight"@.len() == 11);
    assert("CenterLeft"@.len() == 10);
    assert("Center"@.len() == 6);
    assert("CenterRight"@.len() == 11);
    assert("CenterLeft"@ != "BottomLeft"@) by {
        assert("CenterLeft"@[0] == 'C');
        assert("BottomLeft"@[0] == 'B');
    }
    assert("CenterRight"@ != "BottomRight"@) by {
        assert("CenterRight"@[0] == 'C');
        assert("BottomRight"@[0] == 'B');
    }
    match a {
        WindowAnchor::TopLeft => {
            assert(spec_anchor_from(spec_anchor_name(a)) == Some(a));
        },
        WindowAnchor::TopCenter => {
            assert(spec_anchor_from(spec_anchor_name(a)) == Some(a));
        },
        WindowAnchor::TopRight => {
            assert(spec_anchor_from(spec_anchor_name(a)) == Some(a));
        },
        WindowAnchor::BottomLeft => {
            assert(spec_anchor_from(spec_anchor_name(a)) == Some(a));
        },
        WindowAnchor::BottomCenter => {
            assert(spec_anchor_from(spec_anchor_name(a)) == Some(a));
        },
        WindowAnchor::BottomRight => {
            assert(spec_anchor_from(spec_anchor_name(a)) == Some(a));
        },
        WindowAnchor::CenterLeft => {
            assert(spec_anchor_from(spec_anchor_name(a)) == Some(a));
        },
        WindowAnchor::Center => {
            assert(spec_anchor_from(spec_anchor_name(a)) == Some(a));
        },
        WindowAnchor::CenterRight => {
            assert(spec_anchor_from(spec_anchor_name(a)) == Some(a));
        },
    }
}

} // verus!

//! How mouse buttons are written in the controls of the configuration file:
//! `Mouse` followed by the button's name.
use vstd::prelude::*;
use vstd::string::StrSliceExecFns;
use crate::text::{has_prefix, same_text, starts_with};

verus! {

/// A mouse button that a control can name.
#[derive(Clone, Copy, PartialEq, Eq, Structural, Debug, Hash)]
pub enum MouseButtonName {
    Left,
    Middle,
    Right,
}

/// The text a mouse button is written as.
pub open spec fn mouse_button_text_spec(b: MouseButtonName) -> Seq<char> {
    match b {
        MouseButtonName::Left => "MouseLeft"@,
        MouseButtonName::Middle => "MouseMiddle"@,
        MouseButtonName::Right => "MouseRight"@,
    }
}

/// The mouse button the text `s` names: `Mouse` followed by `Left`, `Middle` or `Right`.
pub open spec fn mouse_button_of(s: Seq<char>) -> Option<MouseButtonName> {
    if has_prefix(s, "Mouse"@) {
        let rest = s.skip(5);
        if rest == "Left"@ {
            Some(MouseButtonName::Left)
        } else if rest == "Middle"@ {
            Some(MouseButtonName::Middle)
        } else if rest == "Right"@ {
            Some(MouseButtonName::Right)
        } else {
            None
        }
    } else {
        None
    }
}

/// Writes a mouse button for the configuration file.
pub fn mouse_button_text(b: MouseButtonName) -> (res: String)
    ensures
        res@ == mouse_button_text_spec(b),
{
    match b {
        MouseButtonName::Left => "MouseLeft".to_owned(),
        MouseButtonName::Middle => "MouseMiddle".to_owned(),
        MouseButtonName::Right => "MouseRight".to_owned(),
    }
}

/// Reads a mouse button from the configuration file; `None` when `s` names none.
pub fn parse_mouse_button(s: &str) -> (res: Option<MouseButtonName>)
    ensures
        res == mouse_button_of(s@),
{
    if !starts_with(s, "Mouse") {
        return None;
    }
    proof {
        reveal_strlit("Mouse");
    }
    let len = s.unicode_len();
    let rest = s.substring_char(5, len);
    if same_text(rest, "Left") {
        Some(MouseButtonName::Left)
    } else if same_text(rest, "Middle") {
        Some(MouseButtonName::Middle)
    } else if same_text(rest, "Right") {
        Some(MouseButtonName::Right)
    } else {
        None
    }
}

/// A mouse button written for the configuration file reads back as the same button.
pub proof fn lemma_mouse_button_round_trip(b: MouseButtonName)
    ensures
        mouse_button_of(mouse_button_text_spec(b)) == Some(b),
{
    reveal_strlit("Mouse");
    reveal_strlit("Left");
    reveal_strlit("Middle");
    reveal_strlit("Right");
    reveal_strlit("MouseLeft");
    reveal_strlit("MouseMiddle");
    reveal_strlit("MouseRight");
    let t = mouse_button_text_spec(b);
    assert(t.take(5) =~= "Mouse"@);
    match b {
        MouseButtonName::Left => assert(t.skip(5) =~= "Left"@),
        MouseButtonName::Middle => {
            assert(t.skip(5) =~= "Middle"@);
            assert(t.skip(5) != "Left"@);
        },
        MouseButtonName::Right => {
            assert(t.skip(5) =~= "Right"@);
            assert(t.skip(5) != "Left"@);
            assert(t.skip(5) != "Middle"@);
        },
    }
}

} // verus!

//! Input forms shown in popups: the search field and the node-details pane.

use vstd::prelude::*;

use crate::events::Key;
use crate::text::{string_pop_char, string_push_char};

verus! {

/// The free-text filter field of the search popup.
pub struct SearchForm {
    pub label: &'static str,
    pub value: String,
}

/// What one key press leaves in the field: printable characters are
/// appended, backspace removes the last character, all else is ignored.
pub open spec fn spec_edited(value: Seq<char>, key: Key) -> Seq<char> {
    match key {
        Key::Char(c) => value.push(c),
        Key::Backspace => if value.len() > 0 {
            value.drop_last()
        } else {
            value
        },
        _ => value,
    }
}

impl SearchForm {
    pub fn new(label: &'static str) -> (r: Self)
        ensures
            r.label == label,
            r.value@ == Seq::<char>::empty(),
    {
        SearchForm { label, value: String::new() }
    }

    /// Edits the field by one key press.
    pub fn on_key_press(&mut self, key: Key)
        ensures
            final(self).label == old(self).label,
            final(self).value@ == spec_edited(old(self).value@, key),
    {
        match key {
            Key::Char(c) => string_push_char(&mut self.value, c),
            Key::Backspace => {
                let _ = string_pop_char(&mut self.value);
            },
            _ => {},
        }
    }

    /// Where the cursor stands, relative to the form's frame.
    pub fn cursor_offset(&self) -> (r: (i32, i32))
        ensures
            r.0 == if self.value@.len() + 1 <= i32::MAX {
                self.value@.len() + 1
            } else {
                i32::MAX as nat
            },
            r.1 == 0,
    {
        let len = self.value.as_str().unicode_len();
        let x: i32 = if len < i32::MAX as usize {
            (len + 1) as i32
        } else {
            i32::MAX
        };
        (x, 0)
    }
}

/// The node-details popup frame; it keeps no editable state.
pub struct NodeDetailsForm {
    pub label: &'static str,
}

impl NodeDetailsForm {
    pub fn new(label: &'static str) -> (r: Self)
        ensures
            r.label == label,
    {
        NodeDetailsForm { label }
    }

    /// Key presses do not change the details form.
    pub fn on_key_press(&mut self, key: Key)
        ensures
            *final(self) == *old(self),
    {
        let _ = key;
    }

    pub fn cursor_offset(&self) -> (r: (i32, i32))
        ensures
            r.0 == 0,
            r.1 == 0,
    {
        (0, 0)
    }
}

} // verus!

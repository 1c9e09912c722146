//! The log of what was said, which the player can open and read back.

use vstd::prelude::*;

verus! {

/// One line of the log.
#[derive(Debug, PartialEq)]
pub struct DialogueEntry {
    /// Who spoke; empty for narration.
    pub character_name: String,
    pub text: String,
}

/// What a [`DialogueEntry`] holds, as mathematical values.
pub struct DialogueEntryView {
    pub character_name: Seq<char>,
    pub text: Seq<char>,
}

impl View for DialogueEntry {
    type V = DialogueEntryView;

    open spec fn view(&self) -> DialogueEntryView {
        DialogueEntryView { character_name: self.character_name@, text: self.text@ }
    }
}

impl DeepView for DialogueEntry {
    type V = DialogueEntryView;

    open spec fn deep_view(&self) -> DialogueEntryView {
        self@
    }
}

impl Clone for DialogueEntry {
    fn clone(&self) -> (r: Self)
        ensures
            r@ == self@,
    {
        DialogueEntry { character_name: self.character_name.clone(), text: self.text.clone() }
    }
}

/// How many entries the log window shows.
pub const VISIBLE_ENTRIES: usize = 8;

/// The log.
#[derive(Debug)]
pub struct DialogueLog {
    pub entries: Vec<DialogueEntry>,
    pub is_visible: bool,
}

/// Whether recording `text` adds a line to `entries`: it does unless the
/// last line has the same text.
pub open spec fn is_new_line(entries: Seq<DialogueEntryView>, text: Seq<char>) -> bool {
    entries.len() == 0 || entries.last().text != text
}

/// `entries` after `text`, spoken by `character_name`, was recorded.
pub open spec fn with_line(
    entries: Seq<DialogueEntryView>,
    character_name: Seq<char>,
    text: Seq<char>,
) -> Seq<DialogueEntryView> {
    if is_new_line(entries, text) {
        entries.push(DialogueEntryView { character_name, text })
    } else {
        entries
    }
}

/// The place of the first entry that the log window shows: the window
/// shows the last [`VISIBLE_ENTRIES`] entries, or all if there are fewer.
pub open spec fn first_shown(len: nat) -> nat {
    if len > VISIBLE_ENTRIES {
        (len - VISIBLE_ENTRIES) as nat
    } else {
        0
    }
}

impl Default for DialogueLog {
    /// An empty log that is not shown.
    fn default() -> (r: Self)
        ensures
            r.entries@.len() == 0,
            !r.is_visible,
    {
        DialogueLog { entries: Vec::new(), is_visible: false }
    }
}

impl DialogueLog {
    /// Records that `character_name` said `text`, unless the last line of
    /// the log has the same text. Returns whether a line was added.
    pub fn record(&mut self, character_name: &str, text: &str) -> (added: bool)
        ensures
            added == is_new_line(old(self).entries.deep_view(), text@),
            final(self).entries.deep_view() == with_line(
                old(self).entries.deep_view(),
                character_name@,
                text@,
            ),
            final(self).is_visible == old(self).is_visible,
    {
        let wanted = String::from_str(text);
        let n = self.entries.len();
        if n > 0 && self.entries[n - 1].text == wanted {
            assert(self.entries.deep_view().last().text == text@);
            return false;
        }
        proof {
            if n > 0 {
                assert(self.entries.deep_view().last().text == self.entries[n - 1].text@);
            }
        }
        self.entries.push(
            DialogueEntry { character_name: String::from_str(character_name), text: wanted },
        );
        assert(self.entries.deep_view() == old(self).entries.deep_view().push(
            DialogueEntryView { character_name: character_name@, text: text@ },
        ));
        true
    }

    /// The place of the first entry that the log window shows.
    pub fn first_visible(&self) -> (first: usize)
        ensures
            first == first_shown(self.entries@.len()),
            first <= self.entries@.len(),
            self.entries@.len() - first <= VISIBLE_ENTRIES,
    {
        if self.entries.len() > VISIBLE_ENTRIES {
            self.entries.len() - VISIBLE_ENTRIES
        } else {
            0
        }
    }

    /// Opens the log if it is closed, and closes it if it is open.
    pub fn toggle(&mut self)
        ensures
            final(self).is_visible == !old(self).is_visible,
            final(self).entries == old(self).entries,
    {
        self.is_visible = !self.is_visible;
    }

    /// Closes the log. Returns whether it was open.
    pub fn close(&mut self) -> (was_open: bool)
        ensures
            was_open == old(self).is_visible,
            !final(self).is_visible,
            final(self).entries == old(self).entries,
    {
        let was_open = self.is_visible;
        self.is_visible = false;
        was_open
    }
}

} // verus!

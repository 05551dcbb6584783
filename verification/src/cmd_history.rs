use vstd::prelude::*;

use crate::text::str_eq;

verus! {

/// Ordered list of previously submitted command lines with a movable recall
/// cursor.
///
/// The cursor ranges over `[0, entries.len()]`; the value `entries.len()`
/// means "not recalling anything": the live edit buffer is active.  The list
/// is backed one-to-one by an append-only text file, one line per entry; the
/// caller reads that file at startup and appends to it whenever
/// `add_command` reports that a line was accepted.
pub struct CommandHistory {
    history: Vec<String>,
    position: usize,
}

impl CommandHistory {
    /// The recorded command lines, oldest first.
    pub closed spec fn entries(&self) -> Seq<Seq<char>> {
        self.history.deep_view()
    }

    /// The recall cursor.
    pub closed spec fn cursor(&self) -> int {
        self.position as int
    }

    /// The cursor never points past the live position.
    pub closed spec fn wf(&self) -> bool {
        self.position <= self.history.len()
    }

    /// Whether the cursor is at the live position (no entry being recalled).
    pub open spec fn at_live(&self) -> bool {
        self.cursor() == self.entries().len()
    }

    /// Whether `command` would be accepted by `add_command`: it is non-empty
    /// and does not repeat the most recently recorded entry.
    pub open spec fn accepts(&self, command: Seq<char>) -> bool {
        command.len() > 0 && (self.entries().len() == 0 || self.entries().last() != command)
    }

    /// Builds the history from the lines of the backing file, oldest first;
    /// the cursor starts at the live position.
    pub fn new(lines: Vec<String>) -> (h: CommandHistory)
        ensures
            h.wf(),
            h.entries() == lines.deep_view(),
            h.at_live(),
    {
        let position = lines.len();
        CommandHistory { history: lines, position }
    }

    /// Appends `command` unless it is empty or identical to the most recent
    /// entry; on append the cursor returns to the live position, otherwise
    /// nothing changes at all.  Returns whether the command was appended, so
    /// that the caller can append the same line to the backing file.
    pub fn add_command(&mut self, command: &str) -> (appended: bool)
        requires
            old(self).wf(),
        ensures
            final(self).wf(),
            appended == old(self).accepts(command@),
            appended ==> final(self).entries() == old(self).entries().push(command@),
            appended ==> final(self).at_live(),
            !appended ==> *final(self) == *old(self),
    {
        if command.is_empty() {
            return false;
        }
        if self.history.len() > 0 {
            let last = &self.history[self.history.len() - 1];
            if str_eq(last.as_str(), command) {
                return false;
            }
        }
        self.history.push(command.to_owned());
        self.position = self.history.len();
        assert(self.entries() =~= old(self).entries().push(command@));
        true
    }

    /// Moves the cursor one entry towards the oldest entry, clamping at the
    /// start.
    pub fn move_up(&mut self)
        requires
            old(self).wf(),
        ensures
            final(self).wf(),
            final(self).entries() == old(self).entries(),
            final(self).cursor() == if old(self).cursor() > 0 {
                old(self).cursor() - 1
            } else {
                0
            },
    {
        if self.position > 0 {
            self.position = self.position - 1;
        }
    }

    /// Moves the cursor one entry towards the live position, clamping there.
    pub fn move_down(&mut self)
        requires
            old(self).wf(),
        ensures
            final(self).wf(),
            final(self).entries() == old(self).entries(),
            final(self).cursor() == if old(self).cursor() < old(self).entries().len() {
                old(self).cursor() + 1
            } else {
                old(self).entries().len() as int
            },
    {
        if self.position < self.history.len() {
            self.position = self.position + 1;
        }
    }

    /// The entry under the cursor, or the empty string at the live position.
    pub fn get_current(&self) -> (r: String)
        requires
            self.wf(),
        ensures
            r@ == self.current_spec(),
    {
        if self.position < self.history.len() {
            self.history[self.position].clone()
        } else {
            String::new()
        }
    }

    /// What `get_current` returns: the entry under the cursor, or the empty
    /// sequence at the live position.
    pub open spec fn current_spec(&self) -> Seq<char> {
        if self.cursor() < self.entries().len() {
            self.entries()[self.cursor()]
        } else {
            Seq::empty()
        }
    }
}

} // verus!

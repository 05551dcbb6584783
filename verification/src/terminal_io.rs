use vstd::prelude::*;

use crate::cmd_history::CommandHistory;
use crate::screen::{
    adv_text, apply_ops, bottom_line, ops_view, printable, redraw_ops, ScreenModel, TermColor,
    TermOp,
};
use crate::screen::{lemma_apply_ops_concat, lemma_apply_ops_wf, lemma_redraw_bottom};
use crate::screen::advance_cursor;
use crate::text::char_to_string;

verus! {

/// The prompt drawn before the live command line.
pub open spec fn prompt_prefix() -> Seq<char> {
    seq!['>', ' ']
}

/// The prefix drawn before an error banner.
pub open spec fn error_prefix() -> Seq<char> {
    seq!['!', ' ']
}

/// A list of drawing commands leaves the bottom row showing `prefix` then
/// `body`, padded with spaces, on every screen of the given geometry.
pub open spec fn bottom_shows(
    ops: Seq<TermOp>,
    cols: int,
    last_row: int,
    prefix: Seq<char>,
    body: Seq<char>,
) -> bool {
    forall|s: ScreenModel|
        s.wf() && s.cols == cols && s.last_row == last_row ==> apply_ops(
            s,
            ops_view(ops),
        ).bottom == bottom_line(prefix, body, cols)
}

/// Where the renderer saves the device-output cursor after printing `data`
/// from the previous saved position: if the text ends on the bottom row away
/// from the left margin, a line feed is printed (scrolling the text up one
/// row) so that the bottom row stays reserved for the command line.
pub open spec fn next_saved(col: int, row: int, cols: int, last_row: int, data: Seq<char>) -> (
    int,
    int,
) {
    let p = adv_text(col, row, cols, last_row, data);
    if p.0 != 0 && p.1 == last_row {
        (p.0, p.1 - 1)
    } else {
        p
    }
}

/// One keyboard key, reduced to what the console reacts to.
#[derive(PartialEq, Eq, Structural, Clone, Copy, Debug)]
pub enum KeyInput {
    Char(char),
    Enter,
    Backspace,
    Up,
    Down,
    Esc,
    Other,
}

/// One key press: the key and whether the control modifier was held.
#[derive(PartialEq, Eq, Structural, Clone, Copy, Debug)]
pub struct KeyEvent {
    pub code: KeyInput,
    pub ctrl: bool,
}

/// What one key press caused.
pub struct KeyOutcome {
    /// Whether the session goes on; an exit key ends it.
    pub continue_running: bool,
    /// The line the user submitted with this key, if any.
    pub submitted: Option<String>,
    /// Whether that line entered the command history (and should be
    /// appended to the history file).
    pub history_appended: bool,
    /// The drawing commands to run.
    pub ops: Vec<TermOp>,
}

/// The key combinations that end the session.
pub open spec fn is_exit_key(key: KeyEvent) -> bool {
    key.code == KeyInput::Esc || (key.ctrl && (key.code == KeyInput::Char('c') || key.code
        == KeyInput::Char('x')))
}

/// The interactive terminal renderer: it owns the live command-line buffer,
/// the recall history and the saved position at which device output resumes,
/// and turns every update into a list of drawing commands whose net effect
/// on the bottom row is proved against the screen model.
pub struct TerminalIO {
    command_buffer: String,
    cursor_col: usize,
    cursor_row: usize,
    cols: usize,
    rows: usize,
    is_error: bool,
    command_history: CommandHistory,
}

impl TerminalIO {
    /// The live command-line buffer.
    pub closed spec fn buffer(&self) -> Seq<char> {
        self.command_buffer@
    }

    /// The screen width the renderer was initialised with.
    pub closed spec fn width(&self) -> int {
        self.cols as int
    }

    /// The screen height the renderer was initialised with.
    pub closed spec fn height(&self) -> int {
        self.rows as int
    }

    /// The bottom row index.
    pub open spec fn last_row(&self) -> int {
        self.height() - 1
    }

    /// Saved column at which device output resumes.
    pub closed spec fn saved_col(&self) -> int {
        self.cursor_col as int
    }

    /// Saved row at which device output resumes.
    pub closed spec fn saved_row(&self) -> int {
        self.cursor_row as int
    }

    /// Whether an error banner currently owns the bottom row.
    pub closed spec fn error_shown(&self) -> bool {
        self.is_error
    }

    /// The command history the renderer recalls from.
    pub closed spec fn hist(&self) -> CommandHistory {
        self.command_history
    }

    /// A buffer line the screen can hold next to the prompt.
    pub open spec fn fits(&self, line: Seq<char>) -> bool {
        printable(line) && line.len() + 2 <= self.width()
    }

    /// The renderer is initialised and consistent.
    pub open spec fn wf(&self) -> bool {
        &&& self.width() >= 3
        &&& self.height() >= 2
        &&& 0 <= self.saved_col() <= self.width()
        &&& 0 <= self.saved_row() < self.height()
        &&& self.fits(self.buffer())
        &&& self.hist().wf()
    }

    /// A fresh renderer over the given history lines; `init` must size it
    /// before it is used.
    pub fn new(history_lines: Vec<String>) -> (r: TerminalIO)
        ensures
            r.buffer() == Seq::<char>::empty(),
            !r.error_shown(),
            r.hist().wf(),
            r.hist().entries() == history_lines.deep_view(),
            r.hist().at_live(),
            r.width() == 0,
            r.height() == 0,
    {
        TerminalIO {
            command_buffer: String::new(),
            cursor_col: 0,
            cursor_row: 0,
            cols: 0,
            rows: 0,
            is_error: false,
            command_history: CommandHistory::new(history_lines),
        }
    }

    /// Adopts the terminal size and produces the commands that clear the
    /// screen and home the cursor.
    pub fn init(&mut self, cols: usize, rows: usize) -> (r: Vec<TermOp>)
        requires
            cols >= 3,
            rows >= 2,
            old(self).buffer() == Seq::<char>::empty(),
            old(self).hist().wf(),
        ensures
            final(self).wf(),
            final(self).width() == cols,
            final(self).height() == rows,
            final(self).buffer() == old(self).buffer(),
            final(self).hist() == old(self).hist(),
            final(self).error_shown() == old(self).error_shown(),
            final(self).saved_col() == 0,
            final(self).saved_row() == 0,
            ops_view(r@) == seq![crate::screen::OpV::ClearAll, crate::screen::OpV::MoveTo(0, 0)],
    {
        self.cols = cols;
        self.rows = rows;
        self.cursor_col = 0;
        self.cursor_row = 0;
        let mut ops: Vec<TermOp> = Vec::new();
        ops.push(TermOp::ClearAll);
        ops.push(TermOp::MoveTo(0, 0));
        proof {
            assert(ops_view(ops@) =~= seq![
                crate::screen::OpV::ClearAll,
                crate::screen::OpV::MoveTo(0, 0),
            ]);
        }
        ops
    }

    /// The drawing commands that redraw the bottom row with the given prefix
    /// and body in the given colour.
    fn redraw_ops_exec(&self, color: TermColor, prefix_text: &str, body: &str) -> (r: Vec<TermOp>)
        requires
            self.height() >= 1,
        ensures
            ops_view(r@) == redraw_ops(prefix_text@, body@, self.last_row()),
    {
        let mut ops: Vec<TermOp> = Vec::new();
        ops.push(TermOp::MoveTo(0, self.rows - 1));
        ops.push(TermOp::ClearLine);
        ops.push(TermOp::SetColor(color));
        ops.push(TermOp::Print(prefix_text.to_owned()));
        ops.push(TermOp::Print(body.to_owned()));
        ops.push(TermOp::ResetColor);
        proof {
            assert(ops_view(ops@) =~= redraw_ops(prefix_text@, body@, self.last_row()));
        }
        ops
    }

    /// Renders newly received device text and redraws the command line.
    ///
    /// The bottom row is cleared, the text is written starting at the saved
    /// position, the saved position is advanced (stepping off the bottom row
    /// if the text ended there), and the bottom row is redrawn as the prompt
    /// followed by the live buffer.  While an error banner is shown, a call
    /// without `force_show` is ignored so the banner survives; a call with
    /// `force_show` clears it.
    pub fn print(&mut self, data: &str, force_show: bool) -> (r: Vec<TermOp>)
        requires
            old(self).wf(),
        ensures
            final(self).wf(),
            final(self).buffer() == old(self).buffer(),
            final(self).hist() == old(self).hist(),
            final(self).width() == old(self).width(),
            final(self).height() == old(self).height(),
            !force_show && old(self).error_shown() ==> *final(self) == *old(self) && r@.len()
                == 0,
            force_show || !old(self).error_shown() ==> {
                &&& !final(self).error_shown()
                &&& bottom_shows(
                    r@,
                    old(self).width(),
                    old(self).last_row(),
                    prompt_prefix(),
                    old(self).buffer(),
                )
                &&& (final(self).saved_col(), final(self).saved_row()) == next_saved(
                    old(self).saved_col(),
                    old(self).saved_row(),
                    old(self).width(),
                    old(self).last_row(),
                    data@,
                )
            },
    {
        if !force_show && self.is_error {
            return Vec::new();
        }
        self.is_error = false;

        let mut ops: Vec<TermOp> = Vec::new();
        // Clear the command row, then resume device output at the saved
        // position.
        ops.push(TermOp::MoveTo(0, self.rows - 1));
        ops.push(TermOp::ClearLine);
        ops.push(TermOp::MoveTo(self.cursor_col, self.cursor_row));
        ops.push(TermOp::Print(data.to_owned()));
        let (c2, r2) = advance_cursor(self.cursor_col, self.cursor_row, self.cols, self.rows, data);
        if c2 != 0 && r2 == self.rows - 1 {
            // Device output ended on the command row: scroll it up a line.
            ops.push(TermOp::Print(char_to_string('\n')));
            self.cursor_col = c2;
            self.cursor_row = r2 - 1;
        } else {
            self.cursor_col = c2;
            self.cursor_row = r2;
        }
        // Redraw the command line.
        let mut tail = self.redraw_ops_exec(TermColor::Prompt, "> ", self.command_buffer.as_str());
        let ghost head_ops = ops@;
        let ghost tail_ops = tail@;
        ops.append(&mut tail);
        proof {
            reveal_strlit("> ");
            assert("> "@ =~= prompt_prefix());
            assert(ops@ == head_ops + tail_ops);
            lemma_bottom_shows_with_head(
                head_ops,
                tail_ops,
                old(self).width(),
                old(self).last_row(),
                prompt_prefix(),
                old(self).buffer(),
            );
        }
        ops
    }

    /// Shows a one-line error banner on the bottom row without touching the
    /// live buffer; later `print` calls without `force_show` keep it there.
    pub fn show_error(&mut self, error_msg: &str) -> (r: Vec<TermOp>)
        requires
            old(self).wf(),
            old(self).fits(error_msg@),
        ensures
            final(self).wf(),
            final(self).buffer() == old(self).buffer(),
            final(self).hist() == old(self).hist(),
            final(self).width() == old(self).width(),
            final(self).height() == old(self).height(),
            final(self).saved_col() == old(self).saved_col(),
            final(self).saved_row() == old(self).saved_row(),
            final(self).error_shown(),
            bottom_shows(
                r@,
                old(self).width(),
                old(self).last_row(),
                error_prefix(),
                error_msg@,
            ),
    {
        let ops = self.redraw_ops_exec(TermColor::Error, "! ", error_msg);
        self.is_error = true;
        proof {
            reveal_strlit("! ");
            assert("! "@ =~= error_prefix());
            lemma_bottom_shows_with_head(
                Seq::<TermOp>::empty(),
                ops@,
                old(self).width(),
                old(self).last_row(),
                error_prefix(),
                error_msg@,
            );
            assert(Seq::<TermOp>::empty() + ops@ =~= ops@);
        }
        ops
    }

    /// Shows a one-line informational banner on the bottom row without
    /// touching the live buffer or the error flag.
    pub fn show_info(&mut self, info_msg: &str) -> (r: Vec<TermOp>)
        requires
            old(self).wf(),
            old(self).fits(info_msg@),
        ensures
            final(self).wf(),
            *final(self) == *old(self),
            bottom_shows(
                r@,
                old(self).width(),
                old(self).last_row(),
                prompt_prefix(),
                info_msg@,
            ),
    {
        let ops = self.redraw_ops_exec(TermColor::Info, "> ", info_msg);
        proof {
            reveal_strlit("> ");
            assert("> "@ =~= prompt_prefix());
            lemma_bottom_shows_with_head(
                Seq::<TermOp>::empty(),
                ops@,
                old(self).width(),
                old(self).last_row(),
                prompt_prefix(),
                info_msg@,
            );
            assert(Seq::<TermOp>::empty() + ops@ =~= ops@);
        }
        ops
    }

    /// What a recalled or assigned line becomes in the buffer: itself when
    /// the screen can hold it, the empty line otherwise.
    pub open spec fn sanitized(&self, line: Seq<char>) -> Seq<char> {
        if self.fits(line) {
            line
        } else {
            Seq::empty()
        }
    }

    /// Whether the screen can hold `s` next to the prompt.
    fn line_fits(&self, s: &str) -> (r: bool)
        requires
            self.wf(),
        ensures
            r == self.fits(s@),
    {
        let len = s.unicode_len();
        if len > self.cols - 2 {
            return false;
        }
        let mut i: usize = 0;
        while i < len
            invariant
                len == s@.len(),
                i <= len,
                forall|k: int| 0 <= k < i ==> s@[k] != '\n' && s@[k] != '\r',
            decreases len - i,
        {
            let c = s.get_char(i);
            if c == '\n' || c == '\r' {
                return false;
            }
            i = i + 1;
        }
        true
    }

    /// A copy of the live buffer.
    pub fn get_command_buffer(&self) -> (r: String)
        ensures
            r@ == self.buffer(),
    {
        self.command_buffer.clone()
    }

    /// Empties the live buffer and redraws the command line (unless an error
    /// banner owns the bottom row).
    pub fn clear_command_buffer(&mut self) -> (r: Vec<TermOp>)
        requires
            old(self).wf(),
        ensures
            final(self).wf(),
            final(self).buffer() == Seq::<char>::empty(),
            final(self).hist() == old(self).hist(),
            final(self).width() == old(self).width(),
            final(self).height() == old(self).height(),
            old(self).error_shown() ==> r@.len() == 0 && final(self).error_shown(),
            !old(self).error_shown() ==> !final(self).error_shown() && bottom_shows(
                r@,
                old(self).width(),
                old(self).last_row(),
                prompt_prefix(),
                Seq::<char>::empty(),
            ),
    {
        self.command_buffer = String::new();
        self.print("", false)
    }

    /// Appends one character to the live buffer and redraws the command
    /// line; a character the screen could not hold is ignored.
    pub fn add_char_to_command_buffer(&mut self, c: char) -> (r: Vec<TermOp>)
        requires
            old(self).wf(),
        ensures
            final(self).wf(),
            final(self).buffer() == (if old(self).fits(old(self).buffer().push(c)) {
                old(self).buffer().push(c)
            } else {
                old(self).buffer()
            }),
            final(self).hist() == old(self).hist(),
            final(self).width() == old(self).width(),
            final(self).height() == old(self).height(),
            old(self).error_shown() ==> r@.len() == 0 && final(self).error_shown(),
            !old(self).error_shown() ==> !final(self).error_shown() && bottom_shows(
                r@,
                old(self).width(),
                old(self).last_row(),
                prompt_prefix(),
                final(self).buffer(),
            ),
    {
        let len = self.command_buffer.as_str().unicode_len();
        if c != '\n' && c != '\r' && len + 2 < self.cols {
            crate::text::push_char(&mut self.command_buffer, c);
            assert(self.buffer() == old(self).buffer().push(c));
            assert forall|k: int| 0 <= k < self.buffer().len() implies self.buffer()[k] != '\n'
                && self.buffer()[k] != '\r' by {
                if k < old(self).buffer().len() {
                    assert(self.buffer()[k] == old(self).buffer()[k]);
                }
            }
        } else {
            assert(!old(self).fits(old(self).buffer().push(c))) by {
                if c == '\n' || c == '\r' {
                    assert(old(self).buffer().push(c).last() == c);
                }
            }
        }
        self.print("", false)
    }

    /// Replaces the live buffer wholesale (recall does this) and redraws the
    /// command line even over an error banner; a line the screen could not
    /// hold becomes the empty line.
    pub fn set_command_buffer(&mut self, s: String) -> (r: Vec<TermOp>)
        requires
            old(self).wf(),
        ensures
            final(self).wf(),
            final(self).buffer() == old(self).sanitized(s@),
            final(self).hist() == old(self).hist(),
            final(self).width() == old(self).width(),
            final(self).height() == old(self).height(),
            !final(self).error_shown(),
            bottom_shows(
                r@,
                old(self).width(),
                old(self).last_row(),
                prompt_prefix(),
                final(self).buffer(),
            ),
    {
        if self.line_fits(s.as_str()) {
            self.command_buffer = s;
        } else {
            self.command_buffer = String::new();
        }
        self.print("", true)
    }

    /// Removes the last character of the live buffer, if any, and redraws
    /// the command line.
    pub fn backspace_command_buffer(&mut self) -> (r: Vec<TermOp>)
        requires
            old(self).wf(),
        ensures
            final(self).wf(),
            final(self).buffer() == (if old(self).buffer().len() > 0 {
                old(self).buffer().drop_last()
            } else {
                old(self).buffer()
            }),
            final(self).hist() == old(self).hist(),
            final(self).width() == old(self).width(),
            final(self).height() == old(self).height(),
            old(self).buffer().len() == 0 ==> *final(self) == *old(self) && r@.len() == 0,
            old(self).buffer().len() > 0 && old(self).error_shown() ==> r@.len() == 0 && final(self).error_shown(),
            old(self).buffer().len() > 0 && !old(self).error_shown() ==> !final(self).error_shown() && bottom_shows(
                r@,
                old(self).width(),
                old(self).last_row(),
                prompt_prefix(),
                final(self).buffer(),
            ),
    {
        let len = self.command_buffer.as_str().unicode_len();
        if len == 0 {
            return Vec::new();
        }
        let shorter = self.command_buffer.as_str().substring_char(0, len - 1).to_owned();
        self.command_buffer = shorter;
        assert(self.buffer() =~= old(self).buffer().drop_last());
        assert forall|k: int| 0 <= k < self.buffer().len() implies self.buffer()[k] != '\n'
            && self.buffer()[k] != '\r' by {
            assert(self.buffer()[k] == old(self).buffer()[k]);
        }
        self.print("", false)
    }

    /// Clears an informational banner by restoring an empty command line.
    pub fn clear_info(&mut self) -> (r: Vec<TermOp>)
        requires
            old(self).wf(),
        ensures
            final(self).wf(),
            final(self).buffer() == Seq::<char>::empty(),
            final(self).hist() == old(self).hist(),
            final(self).width() == old(self).width(),
            final(self).height() == old(self).height(),
            !final(self).error_shown(),
            bottom_shows(
                r@,
                old(self).width(),
                old(self).last_row(),
                prompt_prefix(),
                Seq::<char>::empty(),
            ),
    {
        self.set_command_buffer(String::new())
    }

    /// Dispatches one key event as an explicit state machine: the returned
    /// outcome says whether the session goes on, which line (if any) was
    /// submitted and whether it entered the history, and which drawing
    /// commands to run.
    pub fn handle_key_event(&mut self, key: KeyEvent) -> (outcome: KeyOutcome)
        requires
            old(self).wf(),
        ensures
            final(self).wf(),
            final(self).width() == old(self).width(),
            final(self).height() == old(self).height(),
            is_exit_key(key) ==> {
                &&& !outcome.continue_running
                &&& *final(self) == *old(self)
                &&& outcome.submitted is None
                &&& !outcome.history_appended
                &&& outcome.ops@.len() == 0
            },
            !is_exit_key(key) ==> outcome.continue_running,
            !is_exit_key(key) && key.code == KeyInput::Enter ==> {
                &&& outcome.submitted matches Some(line) && line@ == old(self).buffer()
                &&& outcome.history_appended == old(self).hist().accepts(old(self).buffer())
                &&& (outcome.history_appended ==> final(self).hist().entries() == old(self).hist().entries().push(old(self).buffer()) && final(self).hist().at_live())
                &&& (!outcome.history_appended ==> final(self).hist() == old(self).hist())
                &&& final(self).buffer() == Seq::<char>::empty()
                &&& (!old(self).error_shown() ==> bottom_shows(
                    outcome.ops@,
                    old(self).width(),
                    old(self).last_row(),
                    prompt_prefix(),
                    final(self).buffer(),
                ))
            },
            !is_exit_key(key) && (key.code matches KeyInput::Char(c)) ==> {
                &&& outcome.submitted is None
                &&& final(self).hist() == old(self).hist()
                &&& final(self).buffer() == (if old(self).fits(
                    old(self).buffer().push(key.code->Char_0),
                ) {
                    old(self).buffer().push(key.code->Char_0)
                } else {
                    old(self).buffer()
                })
                &&& (!old(self).error_shown() ==> bottom_shows(
                    outcome.ops@,
                    old(self).width(),
                    old(self).last_row(),
                    prompt_prefix(),
                    final(self).buffer(),
                ))
            },
            key.code == KeyInput::Backspace ==> {
                &&& outcome.submitted is None
                &&& final(self).hist() == old(self).hist()
                &&& final(self).buffer() == (if old(self).buffer().len() > 0 {
                    old(self).buffer().drop_last()
                } else {
                    old(self).buffer()
                })
                &&& (!old(self).error_shown() && old(self).buffer().len() > 0 ==> bottom_shows(
                    outcome.ops@,
                    old(self).width(),
                    old(self).last_row(),
                    prompt_prefix(),
                    final(self).buffer(),
                ))
            },
            key.code == KeyInput::Up ==> {
                &&& outcome.submitted is None
                &&& final(self).hist().entries() == old(self).hist().entries()
                &&& final(self).hist().cursor() == (if old(self).hist().cursor() > 0 {
                    old(self).hist().cursor() - 1
                } else {
                    0
                })
                &&& final(self).buffer() == old(self).sanitized(
                    final(self).hist().current_spec(),
                )
                &&& bottom_shows(
                    outcome.ops@,
                    old(self).width(),
                    old(self).last_row(),
                    prompt_prefix(),
                    final(self).buffer(),
                )
            },
            key.code == KeyInput::Down ==> {
                &&& outcome.submitted is None
                &&& final(self).hist().entries() == old(self).hist().entries()
                &&& final(self).hist().cursor() == (if old(self).hist().cursor() < old(self).hist().entries().len() {
                    old(self).hist().cursor() + 1
                } else {
                    old(self).hist().entries().len() as int
                })
                &&& final(self).buffer() == old(self).sanitized(
                    final(self).hist().current_spec(),
                )
                &&& bottom_shows(
                    outcome.ops@,
                    old(self).width(),
                    old(self).last_row(),
                    prompt_prefix(),
                    final(self).buffer(),
                )
            },
            key.code == KeyInput::Other ==> *final(self) == *old(self) && outcome.submitted
                is None && outcome.ops@.len() == 0,
    {
        match key.code {
            KeyInput::Char(c) => {
                if key.ctrl && (c == 'c' || c == 'x') {
                    KeyOutcome {
                        continue_running: false,
                        submitted: None,
                        history_appended: false,
                        ops: Vec::new(),
                    }
                } else {
                    let ops = self.add_char_to_command_buffer(c);
                    KeyOutcome {
                        continue_running: true,
                        submitted: None,
                        history_appended: false,
                        ops,
                    }
                }
            },
            KeyInput::Esc => KeyOutcome {
                continue_running: false,
                submitted: None,
                history_appended: false,
                ops: Vec::new(),
            },
            KeyInput::Enter => {
                let command = self.get_command_buffer();
                let appended = self.command_history.add_command(command.as_str());
                self.command_buffer = String::new();
                let ops = self.print("", false);
                KeyOutcome {
                    continue_running: true,
                    submitted: Some(command),
                    history_appended: appended,
                    ops,
                }
            },
            KeyInput::Backspace => {
                let ops = self.backspace_command_buffer();
                KeyOutcome {
                    continue_running: true,
                    submitted: None,
                    history_appended: false,
                    ops,
                }
            },
            KeyInput::Up => {
                self.command_history.move_up();
                let current = self.command_history.get_current();
                let ops = self.set_command_buffer(current);
                KeyOutcome {
                    continue_running: true,
                    submitted: None,
                    history_appended: false,
                    ops,
                }
            },
            KeyInput::Down => {
                self.command_history.move_down();
                let current = self.command_history.get_current();
                let ops = self.set_command_buffer(current);
                KeyOutcome {
                    continue_running: true,
                    submitted: None,
                    history_appended: false,
                    ops,
                }
            },
            KeyInput::Other => KeyOutcome {
                continue_running: true,
                submitted: None,
                history_appended: false,
                ops: Vec::new(),
            },
        }
    }

    /// Passes received device text through unchanged, as a raw write at the
    /// current cursor.
    pub fn display_received_data(&self, data: &str) -> (r: Vec<TermOp>)
        ensures
            ops_view(r@) == seq![crate::screen::OpV::Print(data@)],
    {
        let mut ops: Vec<TermOp> = Vec::new();
        ops.push(TermOp::Print(data.to_owned()));
        proof {
            assert(ops_view(ops@) =~= seq![crate::screen::OpV::Print(data@)]);
        }
        ops
    }
}

/// Commands that end in a bottom-row redraw leave the bottom row showing the
/// redrawn line, whatever went before.
proof fn lemma_bottom_shows_with_head(
    head: Seq<TermOp>,
    tail: Seq<TermOp>,
    cols: int,
    last_row: int,
    prefix: Seq<char>,
    body: Seq<char>,
)
    requires
        cols >= 1,
        last_row >= 0,
        printable(prefix),
        printable(body),
        prefix.len() + body.len() <= cols,
        ops_view(tail) == redraw_ops(prefix, body, last_row),
    ensures
        bottom_shows(head + tail, cols, last_row, prefix, body),
{
    assert forall|s: ScreenModel| s.wf() && s.cols == cols && s.last_row == last_row implies
        apply_ops(s, ops_view(head + tail)).bottom == bottom_line(prefix, body, cols) by {
        assert(ops_view(head + tail) =~= ops_view(head) + ops_view(tail));
        lemma_apply_ops_concat(s, ops_view(head), ops_view(tail));
        lemma_apply_ops_wf(s, ops_view(head));
        let mid = apply_ops(s, ops_view(head));
        lemma_redraw_bottom(mid, prefix, body);
    }
}

} // verus!

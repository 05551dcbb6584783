use vstd::prelude::*;

verus! {

// ---------------------------------------------------------------------------
// Drawing commands
// ---------------------------------------------------------------------------

/// Colour selection for subsequent text, purely cosmetic: it never changes
/// what the screen model holds.
pub enum TermColor {
    Prompt,
    Info,
    Error,
}

/// One drawing command for the raw terminal.  The renderer computes lists of
/// these; the caller executes them against the real terminal in order.
pub enum TermOp {
    /// Clear the whole screen.
    ClearAll,
    /// Move the cursor to `(column, row)`, clamped to the screen.
    MoveTo(usize, usize),
    /// Clear the row the cursor is on, leaving the cursor where it is.
    ClearLine,
    /// Write text at the cursor, wrapping at the last column and scrolling
    /// when the cursor would leave the last row.
    Print(String),
    SetColor(TermColor),
    ResetColor,
}

/// The mathematical mirror of `TermOp`.
pub enum OpV {
    ClearAll,
    MoveTo(int, int),
    ClearLine,
    Print(Seq<char>),
    SetColor,
    ResetColor,
}

/// The mathematical view of one drawing command.
pub open spec fn op_view(op: TermOp) -> OpV {
    match op {
        TermOp::ClearAll => OpV::ClearAll,
        TermOp::MoveTo(c, r) => OpV::MoveTo(c as int, r as int),
        TermOp::ClearLine => OpV::ClearLine,
        TermOp::Print(s) => OpV::Print(s@),
        TermOp::SetColor(_) => OpV::SetColor,
        TermOp::ResetColor => OpV::ResetColor,
    }
}

/// The mathematical view of a list of drawing commands.
pub open spec fn ops_view(ops: Seq<TermOp>) -> Seq<OpV> {
    ops.map_values(|op: TermOp| op_view(op))
}

// ---------------------------------------------------------------------------
// Screen model
// ---------------------------------------------------------------------------

/// What the interpreter tracks of a terminal screen: its geometry, the
/// cursor, and the contents of the bottom row.  Rows above the bottom one
/// are not modelled; the renderer's guarantee is about the bottom row, which
/// is reserved for the live command line.
pub struct ScreenModel {
    /// Number of columns, at least 1.
    pub cols: int,
    /// Index of the bottom row (number of rows minus one).
    pub last_row: int,
    /// Cursor column; `cols` means a wrap is pending.
    pub col: int,
    /// Cursor row.
    pub row: int,
    /// Contents of the bottom row, exactly `cols` characters.
    pub bottom: Seq<char>,
}

/// A row of spaces.
pub open spec fn blank_row(cols: int) -> Seq<char> {
    Seq::new(cols as nat, |i: int| ' ')
}

impl ScreenModel {
    /// Geometry and cursor are consistent.
    pub open spec fn wf(self) -> bool {
        &&& self.cols >= 1
        &&& self.last_row >= 0
        &&& 0 <= self.col <= self.cols
        &&& 0 <= self.row <= self.last_row
        &&& self.bottom.len() == self.cols
    }
}

/// Clamping used by cursor moves.
pub open spec fn clamp_to(v: int, max: int) -> int {
    if v < 0 {
        0
    } else if v > max {
        max
    } else {
        v
    }
}

/// The cursor steps down one row; at the bottom the screen scrolls instead,
/// which blanks the bottom row (its old contents move up and out of the
/// modelled region).
pub open spec fn step_row(s: ScreenModel) -> ScreenModel {
    if s.row == s.last_row {
        ScreenModel { bottom: blank_row(s.cols), ..s }
    } else {
        ScreenModel { row: s.row + 1, ..s }
    }
}

/// One character is written at the cursor.  A pending wrap is resolved
/// first; carriage return and line feed move the cursor without writing.
pub open spec fn put_char(s: ScreenModel, ch: char) -> ScreenModel {
    if ch == '\n' {
        step_row(s)
    } else if ch == '\r' {
        ScreenModel { col: 0, ..s }
    } else {
        let s1 = if s.col >= s.cols {
            let s2 = step_row(s);
            ScreenModel { col: 0, ..s2 }
        } else {
            s
        };
        let written = if s1.row == s1.last_row {
            s1.bottom.update(s1.col, ch)
        } else {
            s1.bottom
        };
        ScreenModel { col: s1.col + 1, bottom: written, ..s1 }
    }
}

/// A whole text is written character by character.
pub open spec fn put_text(s: ScreenModel, t: Seq<char>) -> ScreenModel
    decreases t.len(),
{
    if t.len() == 0 {
        s
    } else {
        put_text(put_char(s, t[0]), t.drop_first())
    }
}

/// The effect of one drawing command on the screen model.
pub open spec fn apply_op(s: ScreenModel, op: OpV) -> ScreenModel {
    match op {
        OpV::ClearAll => ScreenModel { bottom: blank_row(s.cols), ..s },
        OpV::MoveTo(c, r) => ScreenModel {
            col: clamp_to(c, s.cols - 1),
            row: clamp_to(r, s.last_row),
            ..s
        },
        OpV::ClearLine => if s.row == s.last_row {
            ScreenModel { bottom: blank_row(s.cols), ..s }
        } else {
            s
        },
        OpV::Print(t) => put_text(s, t),
        OpV::SetColor => s,
        OpV::ResetColor => s,
    }
}

/// The effect of a list of drawing commands, first to last.
pub open spec fn apply_ops(s: ScreenModel, ops: Seq<OpV>) -> ScreenModel
    decreases ops.len(),
{
    if ops.len() == 0 {
        s
    } else {
        apply_ops(apply_op(s, ops[0]), ops.drop_first())
    }
}

// ---------------------------------------------------------------------------
// Properties of the interpreter
// ---------------------------------------------------------------------------

/// Text that moves the cursor only forwards: no line feed, no carriage
/// return.
pub open spec fn printable(t: Seq<char>) -> bool {
    forall|i: int| 0 <= i < t.len() ==> t[i] != '\n' && t[i] != '\r'
}

pub proof fn lemma_put_char_wf(s: ScreenModel, ch: char)
    requires
        s.wf(),
    ensures
        put_char(s, ch).wf(),
        put_char(s, ch).cols == s.cols,
        put_char(s, ch).last_row == s.last_row,
{
}

pub proof fn lemma_put_text_wf(s: ScreenModel, t: Seq<char>)
    requires
        s.wf(),
    ensures
        put_text(s, t).wf(),
        put_text(s, t).cols == s.cols,
        put_text(s, t).last_row == s.last_row,
    decreases t.len(),
{
    if t.len() > 0 {
        lemma_put_char_wf(s, t[0]);
        lemma_put_text_wf(put_char(s, t[0]), t.drop_first());
    }
}

pub proof fn lemma_apply_op_wf(s: ScreenModel, op: OpV)
    requires
        s.wf(),
    ensures
        apply_op(s, op).wf(),
        apply_op(s, op).cols == s.cols,
        apply_op(s, op).last_row == s.last_row,
{
    match op {
        OpV::Print(t) => lemma_put_text_wf(s, t),
        _ => {},
    }
}

pub proof fn lemma_apply_ops_wf(s: ScreenModel, ops: Seq<OpV>)
    requires
        s.wf(),
    ensures
        apply_ops(s, ops).wf(),
        apply_ops(s, ops).cols == s.cols,
        apply_ops(s, ops).last_row == s.last_row,
    decreases ops.len(),
{
    if ops.len() > 0 {
        lemma_apply_op_wf(s, ops[0]);
        lemma_apply_ops_wf(apply_op(s, ops[0]), ops.drop_first());
    }
}

/// Applying a concatenation applies the two parts in order.
pub proof fn lemma_apply_ops_concat(s: ScreenModel, a: Seq<OpV>, b: Seq<OpV>)
    ensures
        apply_ops(s, a + b) == apply_ops(apply_ops(s, a), b),
    decreases a.len(),
{
    if a.len() == 0 {
        assert(a + b =~= b);
    } else {
        assert((a + b)[0] == a[0]);
        assert((a + b).drop_first() =~= a.drop_first() + b);
        lemma_apply_ops_concat(apply_op(s, a[0]), a.drop_first(), b);
    }
}

/// The bottom row with `t` overlaid on `base` starting at column `c`.
pub open spec fn overlay(base: Seq<char>, c: int, t: Seq<char>) -> Seq<char> {
    Seq::new(base.len(), |i: int| if c <= i < c + t.len() {
        t[i - c]
    } else {
        base[i]
    })
}

/// Writing printable text that fits on the bottom row overlays it there and
/// advances the cursor past it.
pub proof fn lemma_put_text_bottom(s: ScreenModel, t: Seq<char>)
    requires
        s.wf(),
        s.row == s.last_row,
        printable(t),
        s.col + t.len() <= s.cols,
    ensures
        put_text(s, t) == (ScreenModel { col: s.col + t.len() as int, bottom: overlay(s.bottom, s.col, t), ..s }),
    decreases t.len(),
{
    if t.len() == 0 {
        assert(overlay(s.bottom, s.col, t) =~= s.bottom);
        assert(put_text(s, t) == ScreenModel { col: s.col + t.len() as int, bottom: overlay(s.bottom, s.col, t), ..s });
    } else {
        let ch = t[0];
        assert(ch != '\n' && ch != '\r');
        assert(s.col < s.cols);
        let s1 = put_char(s, ch);
        assert(s1 == ScreenModel { col: s.col + 1, bottom: s.bottom.update(s.col, ch), ..s });
        lemma_put_text_bottom(s1, t.drop_first());
        let rest = t.drop_first();
        assert(overlay(s1.bottom, s1.col, rest) =~= overlay(s.bottom, s.col, t)) by {
            assert forall|i: int| 0 <= i < s.bottom.len() implies
                overlay(s1.bottom, s1.col, rest)[i] == overlay(s.bottom, s.col, t)[i] by {
                if s.col + 1 <= i < s.col + 1 + rest.len() {
                    assert(rest[i - (s.col + 1)] == t[i - s.col]);
                }
            }
        }
        assert(put_text(s, t) == put_text(s1, rest));
    }
}

/// The bottom row as the renderer redraws it: a prefix, then the body, then
/// blanks out to the full width.
pub open spec fn bottom_line(prefix: Seq<char>, body: Seq<char>, cols: int) -> Seq<char> {
    overlay(overlay(blank_row(cols), 0, prefix), prefix.len() as int, body)
}

/// The drawing commands that redraw the bottom row.
pub open spec fn redraw_ops(prefix: Seq<char>, body: Seq<char>, last_row: int) -> Seq<OpV> {
    seq![
        OpV::MoveTo(0, last_row),
        OpV::ClearLine,
        OpV::SetColor,
        OpV::Print(prefix),
        OpV::Print(body),
        OpV::ResetColor,
    ]
}

/// Whatever the screen held before, after the redraw commands the bottom
/// row holds exactly the prefix and the body, padded with spaces.
pub proof fn lemma_redraw_bottom(s: ScreenModel, prefix: Seq<char>, body: Seq<char>)
    requires
        s.wf(),
        printable(prefix),
        printable(body),
        prefix.len() + body.len() <= s.cols,
    ensures
        apply_ops(s, redraw_ops(prefix, body, s.last_row)).bottom == bottom_line(prefix, body, s.cols),
        apply_ops(s, redraw_ops(prefix, body, s.last_row)).wf(),
        apply_ops(s, redraw_ops(prefix, body, s.last_row)).cols == s.cols,
        apply_ops(s, redraw_ops(prefix, body, s.last_row)).last_row == s.last_row,
{
    let ops = redraw_ops(prefix, body, s.last_row);
    let s1 = apply_op(s, ops[0]);
    assert(s1 == ScreenModel { col: 0, row: s.last_row, ..s });
    let s2 = apply_op(s1, ops[1]);
    assert(s2 == ScreenModel { bottom: blank_row(s.cols), ..s1 });
    let s3 = apply_op(s2, ops[2]);
    assert(s3 == s2);
    lemma_put_text_bottom(s3, prefix);
    let s4 = apply_op(s3, ops[3]);
    assert(s4 == ScreenModel { col: prefix.len() as int, bottom: overlay(blank_row(s.cols), 0, prefix), ..s3 });
    lemma_put_text_bottom(s4, body);
    let s5 = apply_op(s4, ops[4]);
    let s6 = apply_op(s5, ops[5]);
    assert(s6 == s5);
    assert(apply_ops(s, ops) == s6) by {
        assert(ops.drop_first().drop_first().drop_first().drop_first().drop_first() =~= seq![ops[5]]);
        assert(seq![ops[5]].drop_first() =~= Seq::<OpV>::empty());
        reveal_with_fuel(apply_ops, 7);
    }
    assert(s6.bottom == bottom_line(prefix, body, s.cols));
}

// ---------------------------------------------------------------------------
// Cursor advance, independent of screen contents
// ---------------------------------------------------------------------------

/// Where the cursor ends up, as a plain function of its start: `put_char`
/// never lets the contents influence the cursor.
pub open spec fn adv_char(col: int, row: int, cols: int, last_row: int, ch: char) -> (int, int) {
    if ch == '\n' {
        (col, if row == last_row { row } else { row + 1 })
    } else if ch == '\r' {
        (0, row)
    } else if col >= cols {
        (1, if row == last_row { row } else { row + 1 })
    } else {
        (col + 1, row)
    }
}

/// The cursor position after writing a whole text.
pub open spec fn adv_text(col: int, row: int, cols: int, last_row: int, t: Seq<char>) -> (int, int)
    decreases t.len(),
{
    if t.len() == 0 {
        (col, row)
    } else {
        let p = adv_char(col, row, cols, last_row, t[0]);
        adv_text(p.0, p.1, cols, last_row, t.drop_first())
    }
}

/// The advance functions say exactly where `put_char`/`put_text` leave the
/// cursor.
pub proof fn lemma_adv_text_matches(s: ScreenModel, t: Seq<char>)
    requires
        s.wf(),
    ensures
        put_text(s, t).col == adv_text(s.col, s.row, s.cols, s.last_row, t).0,
        put_text(s, t).row == adv_text(s.col, s.row, s.cols, s.last_row, t).1,
    decreases t.len(),
{
    if t.len() > 0 {
        lemma_put_char_wf(s, t[0]);
        lemma_adv_text_matches(put_char(s, t[0]), t.drop_first());
    }
}

/// The advance keeps the cursor on the screen.
pub proof fn lemma_adv_text_bounds(col: int, row: int, cols: int, last_row: int, t: Seq<char>)
    requires
        cols >= 1,
        last_row >= 0,
        0 <= col <= cols,
        0 <= row <= last_row,
    ensures
        0 <= adv_text(col, row, cols, last_row, t).0 <= cols,
        0 <= adv_text(col, row, cols, last_row, t).1 <= last_row,
    decreases t.len(),
{
    if t.len() > 0 {
        let p = adv_char(col, row, cols, last_row, t[0]);
        lemma_adv_text_bounds(p.0, p.1, cols, last_row, t.drop_first());
    }
}

/// Computes `adv_text` for one text.
pub fn advance_cursor(col: usize, row: usize, cols: usize, rows: usize, data: &str) -> (r: (
    usize,
    usize,
))
    requires
        cols >= 1,
        rows >= 1,
        col <= cols,
        row < rows,
    ensures
        r.0 as int == adv_text(col as int, row as int, cols as int, rows - 1, data@).0,
        r.1 as int == adv_text(col as int, row as int, cols as int, rows - 1, data@).1,
        r.0 <= cols,
        r.1 < rows,
{
    let last_row = rows - 1;
    let len = data.unicode_len();
    let mut c = col;
    let mut r = row;
    let mut i: usize = 0;
    proof {
        lemma_adv_text_bounds(col as int, row as int, cols as int, last_row as int, data@);
        assert(data@.subrange(0, len as int) =~= data@);
    }
    while i < len
        invariant
            len == data@.len(),
            i <= len,
            cols >= 1,
            last_row == rows - 1,
            c <= cols,
            r <= last_row,
            adv_text(col as int, row as int, cols as int, last_row as int, data@) == adv_text(
                c as int,
                r as int,
                cols as int,
                last_row as int,
                data@.subrange(i as int, len as int),
            ),
        decreases len - i,
    {
        let ch = data.get_char(i);
        let ghost pre = data@.subrange(i as int, len as int);
        proof {
            assert(pre[0] == ch);
            assert(pre.drop_first() =~= data@.subrange(i + 1, len as int));
        }
        if ch == '\n' {
            if r < last_row {
                r = r + 1;
            }
        } else if ch == '\r' {
            c = 0;
        } else if c >= cols {
            c = 1;
            if r < last_row {
                r = r + 1;
            }
        } else {
            c = c + 1;
        }
        i = i + 1;
    }
    proof {
        assert(data@.subrange(len as int, len as int) =~= Seq::<char>::empty());
    }
    (c, r)
}

// ---------------------------------------------------------------------------
// Executable interpreter, for exercising the model
// ---------------------------------------------------------------------------

/// An executable terminal screen following `ScreenModel` exactly; it lets
/// callers and tests replay drawing commands and inspect the bottom row.
pub struct Screen {
    cols: usize,
    last_row: usize,
    col: usize,
    row: usize,
    bottom: Vec<char>,
}

impl Screen {
    /// The mathematical view of this screen.
    pub closed spec fn view(&self) -> ScreenModel {
        ScreenModel {
            cols: self.cols as int,
            last_row: self.last_row as int,
            col: self.col as int,
            row: self.row as int,
            bottom: self.bottom@,
        }
    }

    /// A blank screen of the given size with the cursor at the top left.
    pub fn new(cols: usize, rows: usize) -> (r: Screen)
        requires
            cols >= 1,
            rows >= 1,
        ensures
            r.view().wf(),
            r.view() == (ScreenModel {
                cols: cols as int,
                last_row: rows - 1,
                col: 0,
                row: 0,
                bottom: blank_row(cols as int),
            }),
    {
        let mut bottom: Vec<char> = Vec::new();
        let mut i: usize = 0;
        while i < cols
            invariant
                i <= cols,
                bottom@.len() == i,
                forall|k: int| 0 <= k < i ==> bottom@[k] == ' ',
            decreases cols - i,
        {
            bottom.push(' ');
            i = i + 1;
        }
        let r = Screen { cols, last_row: rows - 1, col: 0, row: 0, bottom };
        proof {
            assert(r.view().bottom =~= blank_row(cols as int));
        }
        r
    }

    /// Replaces the bottom row with spaces.
    fn blank_bottom(&mut self)
        ensures
            final(self).view() == (ScreenModel {
                bottom: blank_row(old(self).view().cols),
                ..old(self).view()
            }),
    {
        let cols = self.cols;
        let mut fresh: Vec<char> = Vec::new();
        let mut i: usize = 0;
        while i < cols
            invariant
                i <= cols,
                fresh@.len() == i,
                forall|k: int| 0 <= k < i ==> fresh@[k] == ' ',
            decreases cols - i,
        {
            fresh.push(' ');
            i = i + 1;
        }
        self.bottom = fresh;
        proof {
            assert(self.view().bottom =~= blank_row(old(self).view().cols));
        }
    }

    /// Applies one drawing command.
    pub fn apply(&mut self, op: &TermOp)
        requires
            old(self).view().wf(),
        ensures
            final(self).view() == apply_op(old(self).view(), op_view(*op)),
            final(self).view().wf(),
    {
        proof {
            lemma_apply_op_wf(old(self).view(), op_view(*op));
        }
        match op {
            TermOp::ClearAll => {
                self.blank_bottom();
            },
            TermOp::MoveTo(c, r) => {
                let cc = if *c > self.cols - 1 {
                    self.cols - 1
                } else {
                    *c
                };
                let rr = if *r > self.last_row {
                    self.last_row
                } else {
                    *r
                };
                self.col = cc;
                self.row = rr;
            },
            TermOp::ClearLine => {
                if self.row == self.last_row {
                    self.blank_bottom();
                }
            },
            TermOp::Print(s) => {
                let text: &str = s.as_str();
                let len = text.unicode_len();
                let mut i: usize = 0;
                proof {
                    assert(text@.subrange(0, len as int) =~= text@);
                }
                while i < len
                    invariant
                        len == text@.len(),
                        i <= len,
                        self.view().wf(),
                        self.view().cols == old(self).view().cols,
                        self.view().last_row == old(self).view().last_row,
                        put_text(old(self).view(), text@) == put_text(
                            self.view(),
                            text@.subrange(i as int, len as int),
                        ),
                    decreases len - i,
                {
                    let ch = text.get_char(i);
                    let ghost pre = text@.subrange(i as int, len as int);
                    proof {
                        assert(pre[0] == ch);
                        assert(pre.drop_first() =~= text@.subrange(i + 1, len as int));
                        lemma_put_char_wf(self.view(), ch);
                    }
                    self.put_char_exec(ch);
                    i = i + 1;
                }
                proof {
                    assert(text@.subrange(len as int, len as int) =~= Seq::<char>::empty());
                }
            },
            TermOp::SetColor(_) => {},
            TermOp::ResetColor => {},
        }
    }

    /// Writes one character as `put_char` describes.
    fn put_char_exec(&mut self, ch: char)
        requires
            old(self).view().wf(),
        ensures
            final(self).view() == put_char(old(self).view(), ch),
    {
        if ch == '\n' {
            if self.row == self.last_row {
                self.blank_bottom();
            } else {
                self.row = self.row + 1;
            }
        } else if ch == '\r' {
            self.col = 0;
        } else {
            if self.col >= self.cols {
                if self.row == self.last_row {
                    self.blank_bottom();
                } else {
                    self.row = self.row + 1;
                }
                self.col = 0;
            }
            if self.row == self.last_row {
                self.bottom.set(self.col, ch);
            }
            self.col = self.col + 1;
        }
    }

    /// Applies a whole list of drawing commands, first to last.
    pub fn apply_all(&mut self, ops: &Vec<TermOp>)
        requires
            old(self).view().wf(),
        ensures
            final(self).view() == apply_ops(old(self).view(), ops_view(ops@)),
            final(self).view().wf(),
    {
        proof {
            lemma_apply_ops_wf(old(self).view(), ops_view(ops@));
            assert(ops@.subrange(0, ops@.len() as int) =~= ops@);
        }
        let mut i: usize = 0;
        while i < ops.len()
            invariant
                i <= ops.len(),
                self.view().wf(),
                apply_ops(old(self).view(), ops_view(ops@)) == apply_ops(
                    self.view(),
                    ops_view(ops@.subrange(i as int, ops@.len() as int)),
                ),
            decreases ops.len() - i,
        {
            let ghost pre = ops@.subrange(i as int, ops@.len() as int);
            proof {
                assert(pre[0] == ops@[i as int]);
                assert(ops_view(pre)[0] == op_view(ops@[i as int]));
                assert(ops_view(pre).drop_first() =~= ops_view(
                    ops@.subrange(i + 1, ops@.len() as int),
                ));
            }
            self.apply(&ops[i]);
            i = i + 1;
        }
        proof {
            assert(ops_view(ops@.subrange(ops@.len() as int, ops@.len() as int)) =~= Seq::<
                OpV,
            >::empty());
        }
    }

    /// The bottom row as a string.
    pub fn bottom_text(&self) -> (r: String)
        ensures
            r@ == self.view().bottom,
    {
        crate::text::string_of_chars(&self.bottom)
    }
}

} // verus!

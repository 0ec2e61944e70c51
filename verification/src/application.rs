use crate::buffer::Buffer;
use crate::viewport::Viewport;
use vstd::prelude::*;

verus! {

/// The closed set of commands the editor understands. An action carries no
/// buffer or viewport reference; it is applied against whatever is current
/// at apply time.
#[derive(Clone, Copy, Debug, PartialEq, Eq)]
pub enum Action {
    MoveLeft,
    MoveRight,
    MoveUp,
    MoveDown,
    Back,
    Return,
    Write(char),
    ChangeMode(Mode),
    Quit,
}

/// The active input-interpretation state; exactly one is active
/// editor-wide at any time.
#[derive(Clone, Copy, Debug, PartialEq, Eq, Structural)]
pub enum Mode {
    Normal,
    Insert,
}

/// The mode after an action: a mode change installs the requested mode and
/// every other action leaves it alone.
pub open spec fn mode_after(mode: Mode, action: Action) -> Mode {
    match action {
        Action::ChangeMode(m) => m,
        _ => mode,
    }
}

/// Whether an action touches the cursor (and so is followed by a scroll):
/// every action but a mode change and quit.
pub open spec fn moves_cursor(action: Action) -> bool {
    match action {
        Action::ChangeMode(_) | Action::Quit => false,
        _ => true,
    }
}

/// The cursor position `(column, row)` after an action, in buffer
/// coordinates, with all arithmetic clamped: the column never leaves
/// `[0, line length]` and the row never leaves `[0, line count)`. Moving to
/// a shorter line clamps the column to that line's length.
pub open spec fn cursor_after(lines: Seq<Seq<char>>, x: int, y: int, action: Action) -> (int, int) {
    match action {
        Action::Write(_) => (x + 1, y),
        Action::Back => if x > 0 {
            (x - 1, y)
        } else {
            (x, y)
        },
        Action::Return => (0, y + 1),
        Action::MoveLeft => (if x > 0 {
            x - 1
        } else {
            0
        }, y),
        Action::MoveRight => (if x < lines[y].len() {
            x + 1
        } else {
            lines[y].len() as int
        }, y),
        Action::MoveUp => {
            let ny = if y > 0 {
                y - 1
            } else {
                0
            };
            (if x > lines[ny].len() {
                lines[ny].len() as int
            } else {
                x
            }, ny)
        },
        Action::MoveDown => {
            let ny = if y + 1 < lines.len() {
                y + 1
            } else {
                lines.len() - 1
            };
            (if x > lines[ny].len() {
                lines[ny].len() as int
            } else {
                x
            }, ny)
        },
        Action::ChangeMode(_) => (x, y),
        Action::Quit => (x, y),
    }
}

/// The text after an action at cursor `(x, y)`: writing inserts into the
/// current line, deleting removes the character before the cursor (nothing
/// at the start of a line), returning splits the current line at the
/// cursor, and every other action leaves the text alone.
pub open spec fn lines_after(lines: Seq<Seq<char>>, x: int, y: int, action: Action) -> Seq<
    Seq<char>,
> {
    match action {
        Action::Write(c) => lines.update(y, lines[y].insert(x, c)),
        Action::Back => if x > 0 {
            lines.update(y, lines[y].remove(x - 1))
        } else {
            lines
        },
        Action::Return => lines.update(y, lines[y].take(x)).insert(y + 1, lines[y].skip(x)),
        _ => lines,
    }
}

/// The viewport after an action: for every cursor-moving or editing action
/// the cursor is updated and the scroll offsets are shifted the minimum
/// amount needed to contain it; a mode change or quit touches nothing.
pub open spec fn vp_after(vp: Viewport, lines: Seq<Seq<char>>, action: Action) -> Viewport {
    match action {
        Action::ChangeMode(_) | Action::Quit => vp,
        _ => {
            let c = cursor_after(lines, vp.cursor_x as int, vp.cursor_y as int, action);
            (Viewport { cursor_x: c.0 as usize, cursor_y: c.1 as usize, ..vp }).scrolled()
        },
    }
}

/// The viewport after the same action applied `n` times against an
/// unchanging text; meaningful for the movement actions, which never
/// modify the text.
pub open spec fn vp_after_n(vp: Viewport, lines: Seq<Seq<char>>, action: Action, n: nat) -> Viewport
    decreases n,
{
    if n == 0 {
        vp
    } else {
        vp_after(vp_after_n(vp, lines, action, (n - 1) as nat), lines, action)
    }
}

/// Law: every cursor-moving or editing action leaves the cursor inside
/// the visible window, because each one ends with a scroll.
pub proof fn lemma_action_scrolls_cursor_into_view(vp: Viewport, lines: Seq<Seq<char>>, action: Action)
    requires
        moves_cursor(action),
    ensures
        vp_after(vp, lines, action).contains_cursor(),
{
}

/// Law: repeated MoveLeft drives the cursor column to 0, one column per
/// step, and keeps it there once reached; the row never changes.
pub proof fn lemma_move_left_drives_to_zero(vp: Viewport, lines: Seq<Seq<char>>, n: nat)
    ensures
        vp_after_n(vp, lines, Action::MoveLeft, n).cursor_y == vp.cursor_y,
        vp_after_n(vp, lines, Action::MoveLeft, n).cursor_x == if n >= vp.cursor_x {
            0int
        } else {
            vp.cursor_x - n
        },
    decreases n,
{
    if n > 0 {
        lemma_move_left_drives_to_zero(vp, lines, (n - 1) as nat);
    }
}

/// Law: repeated MoveDown drives the cursor row to the last line, one row
/// per step, and keeps it there once reached.
pub proof fn lemma_move_down_drives_to_last_line(vp: Viewport, lines: Seq<Seq<char>>, n: nat)
    requires
        0 < lines.len() <= usize::MAX,
        vp.cursor_y < lines.len(),
    ensures
        vp_after_n(vp, lines, Action::MoveDown, n).cursor_y == if vp.cursor_y + n >= lines.len()
            - 1 {
            lines.len() - 1
        } else {
            vp.cursor_y + n
        },
    decreases n,
{
    if n > 0 {
        lemma_move_down_drives_to_last_line(vp, lines, (n - 1) as nat);
    }
}

/// Law: writing a character and immediately deleting it with Back restores
/// the line's prior content and the cursor's prior position.
pub proof fn lemma_write_back_round_trip(vp: Viewport, lines: Seq<Seq<char>>, c: char)
    requires
        vp.cursor_y < lines.len(),
        vp.cursor_x <= lines[vp.cursor_y as int].len(),
        lines[vp.cursor_y as int].len() < usize::MAX,
    ensures
        ({
            let x = vp.cursor_x as int;
            let y = vp.cursor_y as int;
            let lines1 = lines_after(lines, x, y, Action::Write(c));
            let vp1 = vp_after(vp, lines, Action::Write(c));
            let lines2 = lines_after(lines1, vp1.cursor_x as int, vp1.cursor_y as int, Action::Back);
            let vp2 = vp_after(vp1, lines1, Action::Back);
            &&& lines2 == lines
            &&& vp2.cursor_x == vp.cursor_x
            &&& vp2.cursor_y == vp.cursor_y
        }),
{
    let x = vp.cursor_x as int;
    let y = vp.cursor_y as int;
    let lines1 = lines_after(lines, x, y, Action::Write(c));
    let vp1 = vp_after(vp, lines, Action::Write(c));
    assert(vp1.cursor_x == x + 1 && vp1.cursor_y == y);
    let lines2 = lines_after(lines1, x + 1, y, Action::Back);
    assert(lines1[y] == lines[y].insert(x, c));
    assert(lines[y].insert(x, c).remove(x) =~= lines[y]);
    assert(lines2 =~= lines);
}

/// Law: Return at (row, col) on a line of length L replaces that line with
/// its first col characters, inserts a new line holding the remaining
/// L - col characters immediately below, grows the line count by exactly
/// one, and moves the cursor to the start of the new line.
pub proof fn lemma_return_splits_line(vp: Viewport, lines: Seq<Seq<char>>)
    requires
        vp.cursor_y < lines.len(),
        vp.cursor_x <= lines[vp.cursor_y as int].len(),
        lines.len() <= usize::MAX,
    ensures
        ({
            let x = vp.cursor_x as int;
            let y = vp.cursor_y as int;
            let lines2 = lines_after(lines, x, y, Action::Return);
            let vp2 = vp_after(vp, lines, Action::Return);
            &&& lines2.len() == lines.len() + 1
            &&& lines2[y] == lines[y].take(x)
            &&& lines2[y + 1] == lines[y].skip(x)
            &&& vp2.cursor_x == 0
            &&& vp2.cursor_y == y + 1
        }),
{
}

/// The rendered-ready snapshot handed to an external renderer once per
/// loop iteration: the visible slice of lines (each already sliced from
/// the horizontal scroll offset) and the cursor's screen-relative
/// position.
pub struct Frame {
    pub visible_lines: Vec<Vec<char>>,
    pub cursor_screen_x: usize,
    pub cursor_screen_y: usize,
    pub width: usize,
    pub height: usize,
}

/// The part of a line visible from horizontal scroll offset `start`: its
/// tail from `start`, or nothing when the line ends before the offset.
pub open spec fn tail_from(line: Seq<char>, start: int) -> Seq<char> {
    if start < line.len() {
        line.skip(start)
    } else {
        Seq::<char>::empty()
    }
}

/// The lines of text a viewport shows: at most `height` rows starting at
/// the vertical scroll offset, each sliced from the horizontal one.
pub open spec fn visible_slice(lines: Seq<Seq<char>>, vp: Viewport) -> Seq<Seq<char>> {
    let count = if lines.len() - vp.start_row < vp.height {
        lines.len() - vp.start_row
    } else {
        vp.height as int
    };
    Seq::new(count as nat, |i: int| tail_from(lines[vp.start_row + i], vp.start_column as int))
}

/// The orchestrator: owns the buffers, the viewports, the active mode and
/// the current viewport index, and applies actions against them.
pub struct Application {
    pub mode: Mode,
    pub buffers: Vec<Buffer>,
    pub viewports: Vec<Viewport>,
    pub current_viewport: usize,
}

impl Application {
    /// The current viewport.
    pub open spec fn vp(self) -> Viewport {
        self.viewports@[self.current_viewport as int]
    }

    /// The buffer the current viewport displays.
    pub open spec fn buf(self) -> Buffer {
        self.buffers@[self.vp().buffer_id as int]
    }

    /// The text of the buffer the current viewport displays.
    pub open spec fn lines(self) -> Seq<Seq<char>> {
        self.buf().text()
    }

    /// Editor-wide validity: the current viewport index is in range, every
    /// buffer has at least one line, every viewport references an existing
    /// buffer, and the current viewport's cursor sits inside its buffer
    /// (the column may equal the line length: the append position).
    pub open spec fn wf(self) -> bool {
        &&& self.current_viewport < self.viewports@.len()
        &&& forall|i: int| 0 <= i < self.buffers@.len() ==> (#[trigger] self.buffers@[i]).wf()
        &&& forall|i: int|
            0 <= i < self.viewports@.len() ==> (#[trigger] self.viewports@[i]).buffer_id
                < self.buffers@.len()
        &&& self.vp().cursor_y < self.lines().len()
        &&& self.vp().cursor_x <= self.lines()[self.vp().cursor_y as int].len()
    }

    /// Create an editor over the given buffers, with one viewport bound to
    /// the first buffer and the cursor at the top-left.
    pub fn new(default_mode: Mode, buffers: Vec<Buffer>) -> (app: Application)
        requires
            buffers@.len() > 0,
            forall|i: int| 0 <= i < buffers@.len() ==> (#[trigger] buffers@[i]).wf(),
        ensures
            app.wf(),
            app.mode == default_mode,
            app.buffers == buffers,
            app.current_viewport == 0,
            app.viewports@.len() == 1,
            app.viewports@[0] == (Viewport {
                width: 0,
                height: 0,
                start_column: 0,
                start_row: 0,
                cursor_x: 0,
                cursor_y: 0,
                buffer_id: 0,
            }),
            app.vp().contains_cursor(),
    {
        let mut viewports: Vec<Viewport> = Vec::new();
        viewports.push(Viewport::new());
        Application { mode: default_mode, buffers, viewports, current_viewport: 0 }
    }

    /// Apply one action against the current mode, viewport and buffer.
    /// The text, cursor, scroll offsets and mode all change exactly as the
    /// transition functions above say; after every cursor-moving or
    /// editing action the cursor ends inside the visible window.
    pub fn handle_action(&mut self, action: Action)
        requires
            old(self).wf(),
            action matches Action::Write(_) ==> old(self).lines()[old(self).vp().cursor_y as int].len()
                < usize::MAX,
        ensures
            final(self).wf(),
            final(self).mode == mode_after(old(self).mode, action),
            final(self).current_viewport == old(self).current_viewport,
            final(self).viewports@ == old(self).viewports@.update(
                old(self).current_viewport as int,
                vp_after(old(self).vp(), old(self).lines(), action),
            ),
            final(self).buffers@.len() == old(self).buffers@.len(),
            forall|i: int|
                0 <= i < old(self).buffers@.len() && i != old(self).vp().buffer_id
                    ==> final(self).buffers@[i] == old(self).buffers@[i],
            final(self).buf().source == old(self).buf().source,
            final(self).lines() == lines_after(
                old(self).lines(),
                old(self).vp().cursor_x as int,
                old(self).vp().cursor_y as int,
                action,
            ),
            moves_cursor(action) ==> final(self).vp().contains_cursor(),
    {
        let vp_idx = self.current_viewport;
        let buf_idx = self.viewports[vp_idx].buffer_id;
        let row = self.viewports[vp_idx].cursor_y;
        let col = self.viewports[vp_idx].cursor_x;
        match action {
            Action::Write(c) => {
                self.buffers[buf_idx].insert_char(row, col, c);
                self.viewports[vp_idx].move_cursor_column_to(col + 1);
                self.viewports[vp_idx].scroll_to_contain_cursor();
            },
            Action::Back => {
                if col > 0 {
                    self.buffers[buf_idx].remove_char_before(row, col);
                    self.viewports[vp_idx].move_cursor_column_to(col - 1);
                }
                self.viewports[vp_idx].scroll_to_contain_cursor();
            },
            Action::Return => {
                proof {
                    assert(row < self.buffers@[buf_idx as int].lines.len());
                }
                self.buffers[buf_idx].split_line(row, col);
                self.viewports[vp_idx].move_cursor_to(0, row + 1);
                self.viewports[vp_idx].scroll_to_contain_cursor();
            },
            Action::MoveLeft => {
                if col > 0 {
                    self.viewports[vp_idx].move_cursor_column_to(col - 1);
                }
                self.viewports[vp_idx].scroll_to_contain_cursor();
            },
            Action::MoveRight => {
                let len = self.buffers[buf_idx].lines[row].len();
                if col < len {
                    self.viewports[vp_idx].move_cursor_column_to(col + 1);
                }
                self.viewports[vp_idx].scroll_to_contain_cursor();
            },
            Action::MoveUp => {
                let new_row = if row > 0 {
                    row - 1
                } else {
                    0
                };
                let len = self.buffers[buf_idx].lines[new_row].len();
                let new_col = if col > len {
                    len
                } else {
                    col
                };
                self.viewports[vp_idx].move_cursor_to(new_col, new_row);
                self.viewports[vp_idx].scroll_to_contain_cursor();
            },
            Action::MoveDown => {
                let line_count = self.buffers[buf_idx].lines.len();
                let new_row = if row + 1 < line_count {
                    row + 1
                } else {
                    line_count - 1
                };
                let len = self.buffers[buf_idx].lines[new_row].len();
                let new_col = if col > len {
                    len
                } else {
                    col
                };
                self.viewports[vp_idx].move_cursor_to(new_col, new_row);
                self.viewports[vp_idx].scroll_to_contain_cursor();
            },
            Action::ChangeMode(m) => {
                self.mode = m;
            },
            Action::Quit => {},
        }
        proof {
            assert(self.viewports@ =~= old(self).viewports@.update(
                vp_idx as int,
                vp_after(old(self).vp(), old(self).lines(), action),
            ));
            assert(self.lines() =~= lines_after(
                old(self).lines(),
                old(self).vp().cursor_x as int,
                old(self).vp().cursor_y as int,
                action,
            ));
        }
    }

    /// Update the current viewport's window size, keeping the cursor
    /// inside the resized window.
    pub fn resize(&mut self, width: usize, height: usize)
        requires
            old(self).wf(),
        ensures
            final(self).wf(),
            final(self).mode == old(self).mode,
            final(self).buffers == old(self).buffers,
            final(self).current_viewport == old(self).current_viewport,
            final(self).viewports@ == old(self).viewports@.update(
                old(self).current_viewport as int,
                (Viewport { width, height, ..old(self).vp() }).scrolled(),
            ),
            final(self).vp().contains_cursor(),
    {
        let vp_idx = self.current_viewport;
        self.viewports[vp_idx].resize(width, height);
        self.viewports[vp_idx].scroll_to_contain_cursor();
        proof {
            assert(self.viewports@ =~= old(self).viewports@.update(
                vp_idx as int,
                (Viewport { width, height, ..old(self).vp() }).scrolled(),
            ));
        }
    }

    /// Produce the frame an external renderer draws: the visible slice of
    /// the current buffer and the cursor's screen-relative position. The
    /// scroll offsets must already contain the cursor, as they do after
    /// every action and resize.
    pub fn draw(&self) -> (f: Frame)
        requires
            self.wf(),
            self.vp().contains_cursor(),
        ensures
            f.width == self.vp().width,
            f.height == self.vp().height,
            f.cursor_screen_x == self.vp().cursor_x - self.vp().start_column,
            f.cursor_screen_y == self.vp().cursor_y - self.vp().start_row,
            crate::buffer::text_of(f.visible_lines@) == visible_slice(self.lines(), self.vp()),
    {
        let vp = self.viewports[self.current_viewport];
        let buffer = &self.buffers[vp.buffer_id];
        let n = buffer.lines.len();
        let mut visible: Vec<Vec<char>> = Vec::new();
        proof {
            assert(crate::buffer::text_of(visible@) =~= visible_slice(self.lines(), vp).take(0));
        }
        let mut i: usize = 0;
        while i < vp.height && i < n - vp.start_row
            invariant
                self.wf(),
                vp == self.vp(),
                buffer == self.buf(),
                n == self.lines().len(),
                vp.start_row < n,
                i <= vp.height,
                i <= n - vp.start_row,
                crate::buffer::text_of(visible@) == visible_slice(self.lines(), vp).take(i as int),
            decreases vp.height - i,
        {
            let row = vp.start_row + i;
            let line = &buffer.lines[row];
            let line_len = line.len();
            let mut tail: Vec<char> = Vec::new();
            let mut c: usize = vp.start_column;
            while c < line_len
                invariant
                    vp.start_column <= c <= line_len || (c == vp.start_column && c >= line_len),
                    line_len == line@.len(),
                    tail@ =~= (if vp.start_column < line@.len() {
                        line@.subrange(vp.start_column as int, c as int)
                    } else {
                        Seq::<char>::empty()
                    }),
                decreases line_len - c,
            {
                let ch = line[c];
                tail.push(ch);
                proof {
                    assert(tail@ =~= line@.subrange(vp.start_column as int, c + 1));
                }
                c += 1;
            }
            proof {
                assert(tail@ =~= tail_from(line@, vp.start_column as int));
                assert(i + 1 <= visible_slice(self.lines(), vp).len());
                assert(visible_slice(self.lines(), vp)[i as int] == tail_from(
                    self.lines()[vp.start_row + i],
                    vp.start_column as int,
                ));
                assert(self.lines()[vp.start_row + i] == line@);
            }
            let ghost pre = visible@;
            let ghost target = visible_slice(self.lines(), vp);
            visible.push(tail);
            proof {
                assert(visible@ == pre.push(tail));
                assert(crate::buffer::text_of(pre).len() == pre.len());
                assert(target.take(i as int).len() == i);
                assert(pre.len() == i);
                assert forall|j: int| 0 <= j < i + 1 implies crate::buffer::text_of(visible@)[j]
                    == target.take(i + 1)[j] by {
                    if j < i {
                        assert(crate::buffer::text_of(pre)[j] == target.take(i as int)[j]);
                        assert(crate::buffer::text_of(pre)[j] == pre[j]@);
                    }
                }
                assert(crate::buffer::text_of(visible@) =~= target.take(i + 1));
            }
            i += 1;
        }
        proof {
            assert(crate::buffer::text_of(visible@) =~= visible_slice(self.lines(), vp));
        }
        Frame {
            visible_lines: visible,
            cursor_screen_x: vp.cursor_x - vp.start_column,
            cursor_screen_y: vp.cursor_y - vp.start_row,
            width: vp.width,
            height: vp.height,
        }
    }
}

} // verus!

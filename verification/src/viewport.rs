use vstd::prelude::*;

verus! {

/// A window onto a buffer: the visible size in character cells, the scroll
/// offsets (the buffer coordinate shown at the window's top-left), and the
/// cursor's position in buffer coordinates. The viewport itself performs no
/// clamping against buffer content; that is the editor's job.
#[derive(Clone, Copy, Debug, PartialEq, Eq, Structural)]
pub struct Viewport {
    pub width: usize,
    pub height: usize,
    pub start_column: usize,
    pub start_row: usize,
    pub cursor_x: usize,
    pub cursor_y: usize,
    pub buffer_id: usize,
}

/// The scroll offset that brings `cursor` back inside a window of `extent`
/// cells starting at `start`, shifted by the minimum amount needed. A window
/// with no extent pins the offset to the cursor.
pub open spec fn scrolled_offset(start: usize, extent: usize, cursor: usize) -> usize {
    if extent == 0 {
        cursor
    } else if cursor < start {
        cursor
    } else if cursor >= start + extent {
        (cursor - (extent - 1)) as usize
    } else {
        start
    }
}

impl Viewport {
    /// The scroll offsets keep the cursor inside the visible window on both
    /// axes; on an axis where the window has no extent the offset sits
    /// exactly at the cursor.
    pub open spec fn contains_cursor(self) -> bool {
        &&& self.start_row <= self.cursor_y
        &&& (self.height > 0 ==> self.cursor_y < self.start_row + self.height)
        &&& (self.height == 0 ==> self.cursor_y == self.start_row)
        &&& self.start_column <= self.cursor_x
        &&& (self.width > 0 ==> self.cursor_x < self.start_column + self.width)
        &&& (self.width == 0 ==> self.cursor_x == self.start_column)
    }

    /// This viewport with both scroll offsets adjusted to contain the cursor.
    pub open spec fn scrolled(self) -> Viewport {
        Viewport {
            start_row: scrolled_offset(self.start_row, self.height, self.cursor_y),
            start_column: scrolled_offset(self.start_column, self.width, self.cursor_x),
            ..self
        }
    }

    pub fn new() -> (v: Viewport)
        ensures
            v == (Viewport {
                width: 0,
                height: 0,
                start_column: 0,
                start_row: 0,
                cursor_x: 0,
                cursor_y: 0,
                buffer_id: 0,
            }),
    {
        Viewport {
            width: 0,
            height: 0,
            start_column: 0,
            start_row: 0,
            cursor_x: 0,
            cursor_y: 0,
            buffer_id: 0,
        }
    }

    pub fn resize(&mut self, columns: usize, rows: usize)
        ensures
            *final(self) == (Viewport { width: columns, height: rows, ..*old(self) }),
    {
        self.width = columns;
        self.height = rows;
    }

    pub fn move_cursor_to(&mut self, column: usize, row: usize)
        ensures
            *final(self) == (Viewport { cursor_x: column, cursor_y: row, ..*old(self) }),
    {
        self.cursor_x = column;
        self.cursor_y = row;
    }

    pub fn move_cursor_column_to(&mut self, column: usize)
        ensures
            *final(self) == (Viewport { cursor_x: column, ..*old(self) }),
    {
        self.cursor_x = column;
    }

    pub fn move_cursor_row_to(&mut self, row: usize)
        ensures
            *final(self) == (Viewport { cursor_y: row, ..*old(self) }),
    {
        self.cursor_y = row;
    }

    /// Shift the scroll offsets by the minimum amount that puts the cursor
    /// back inside the visible window on both axes.
    pub fn scroll_to_contain_cursor(&mut self)
        ensures
            *final(self) == old(self).scrolled(),
            final(self).contains_cursor(),
    {
        if self.height == 0 {
            self.start_row = self.cursor_y;
        } else if self.cursor_y < self.start_row {
            self.start_row = self.cursor_y;
        } else if self.cursor_y - self.start_row >= self.height {
            self.start_row = self.cursor_y - (self.height - 1);
        }

        if self.width == 0 {
            self.start_column = self.cursor_x;
        } else if self.cursor_x < self.start_column {
            self.start_column = self.cursor_x;
        } else if self.cursor_x - self.start_column >= self.width {
            self.start_column = self.cursor_x - (self.width - 1);
        }
    }
}

/// Law: adjusting the scroll offsets always places the cursor inside the
/// visible window (or pins the offset to the cursor on an axis where the
/// window has no extent).
pub proof fn lemma_scrolled_contains_cursor(v: Viewport)
    ensures
        v.scrolled().contains_cursor(),
{
}

} // verus!

//! What is shown: colours, cells, the buffer of cells of a screen and the
//! rectangle that a part of the screen takes.

use vstd::prelude::*;

verus! {

/// A colour of the terminal.
#[derive(Clone, Copy, Debug, PartialEq, Eq, Structural)]
pub enum Color {
    Reset,
    Black,
    DarkGrey,
    Red,
    DarkRed,
    Green,
    DarkGreen,
    Yellow,
    DarkYellow,
    Blue,
    DarkBlue,
    Magenta,
    DarkMagenta,
    Cyan,
    DarkCyan,
    White,
    Grey,
    Rgb { r: u8, g: u8, b: u8 },
    AnsiValue(u8),
}

/// One cell of the screen: a character and its two colours.
#[derive(Clone, Copy, Debug, PartialEq, Eq, Structural)]
pub struct Cell {
    pub character: char,
    pub fg_color: Color,
    pub bg_color: Color,
}

impl Cell {
    pub fn new(character: char, fg_color: Color, bg_color: Color) -> (cell: Self)
        ensures
            cell == (Cell { character, fg_color, bg_color }),
    {
        Self { character, fg_color, bg_color }
    }

    /// The cell that a resize fills new room with: a space in the
    /// terminal's own colours.
    pub open spec fn blank() -> Cell {
        Cell { character: ' ', fg_color: Color::Reset, bg_color: Color::Reset }
    }
}

/// The cells of a screen, row by row.  A cell that was never written holds
/// nothing.
pub struct ScreenBuffer {
    pub width: usize,
    pub height: usize,
    pub cells: Vec<Vec<Option<Cell>>>,
}

impl ScreenBuffer {
    /// There are `height` rows of `width` cells each.
    pub open spec fn wf(&self) -> bool {
        &&& self.cells@.len() == self.height
        &&& forall|y: int| 0 <= y < self.height ==> (#[trigger] self.cells@[y])@.len() == self.width
    }

    /// The cell at column `x` of row `y`; nothing outside the screen.
    pub open spec fn at(&self, x: int, y: int) -> Option<Cell> {
        if 0 <= y < self.height && 0 <= x < self.width {
            self.cells@[y]@[x]
        } else {
            None
        }
    }

    /// A screen on which nothing is written.
    pub fn new(width: usize, height: usize) -> (buffer: Self)
        ensures
            buffer.wf(),
            buffer.width == width,
            buffer.height == height,
            forall|x: int, y: int| buffer.at(x, y) is None,
    {
        let mut cells: Vec<Vec<Option<Cell>>> = Vec::new();
        let mut y: usize = 0;
        while y < height
            invariant
                y <= height,
                cells@.len() == y,
                forall|j: int| 0 <= j < y ==> (#[trigger] cells@[j])@.len() == width,
                forall|j: int, i: int|
                    0 <= j < y && 0 <= i < width ==> (#[trigger] cells@[j]@[i]) is None,
            decreases height - y,
        {
            let row = row_of(None, width);
            cells.push(row);
            y += 1;
        }
        Self { width, height, cells }
    }

    /// Writes `cell` at column `x` of row `y`.  Outside the screen nothing
    /// is written.
    pub fn set_cell(&mut self, x: usize, y: usize, cell: Cell)
        requires
            old(self).wf(),
        ensures
            final(self).wf(),
            final(self).width == old(self).width,
            final(self).height == old(self).height,
            forall|i: int, j: int|
                final(self).at(i, j) == if i == x && j == y && x < old(self).width && y < old(
                    self,
                ).height {
                    Some(cell)
                } else {
                    old(self).at(i, j)
                },
    {
        if y < self.height && x < self.width {
            let mut row = self.cells[y].clone();
            assert(row@ =~= self.cells@[y as int]@);
            row.set(x, Some(cell));
            self.cells.set(y, row);
        }
    }

    /// The cell at column `x` of row `y`.
    pub fn get_cell(&self, x: usize, y: usize) -> (cell: Option<&Cell>)
        requires
            self.wf(),
        ensures
            (match cell {
                Some(c) => Some(*c),
                None => None,
            }) == self.at(x as int, y as int),
    {
        if y < self.height && x < self.width {
            self.cells[y][x].as_ref()
        } else {
            None
        }
    }

    /// Gives the screen a new size.  Cells that stay within it keep what
    /// they hold; new room is filled with blank cells.
    pub fn resize(&mut self, new_width: usize, new_height: usize)
        requires
            old(self).wf(),
        ensures
            final(self).wf(),
            final(self).width == new_width,
            final(self).height == new_height,
            forall|x: int, y: int|
                0 <= x < new_width && 0 <= y < new_height ==> final(self).at(x, y) == if x < old(
                    self,
                ).width && y < old(self).height {
                    old(self).at(x, y)
                } else {
                    Some(Cell::blank())
                },
    {
        let default_cell = Cell { character: ' ', fg_color: Color::Reset, bg_color: Color::Reset };
        let mut cells: Vec<Vec<Option<Cell>>> = Vec::new();
        let mut y: usize = 0;
        while y < new_height
            invariant
                y <= new_height,
                self.wf(),
                *self == *old(self),
                default_cell == Cell::blank(),
                cells@.len() == y,
                forall|j: int| 0 <= j < y ==> (#[trigger] cells@[j])@.len() == new_width,
                forall|j: int, i: int|
                    0 <= j < y && 0 <= i < new_width ==> (#[trigger] cells@[j]@[i]) == if i
                        < self.width && j < self.height {
                        self.cells@[j]@[i]
                    } else {
                        Some(Cell::blank())
                    },
            decreases new_height - y,
        {
            let mut row: Vec<Option<Cell>> = Vec::new();
            let mut x: usize = 0;
            while x < new_width
                invariant
                    x <= new_width,
                    y < new_height,
                    self.wf(),
                    default_cell == Cell::blank(),
                    row@.len() == x,
                    forall|i: int|
                        0 <= i < x ==> (#[trigger] row@[i]) == if i < self.width && y
                            < self.height {
                            self.cells@[y as int]@[i]
                        } else {
                            Some(Cell::blank())
                        },
                decreases new_width - x,
            {
                if y < self.height && x < self.width {
                    row.push(self.cells[y][x]);
                } else {
                    row.push(Some(default_cell));
                }
                x += 1;
            }
            cells.push(row);
            y += 1;
        }
        self.cells = cells;
        self.width = new_width;
        self.height = new_height;
    }

    /// Whether the cell at column `x` of row `y` holds `other`.
    pub fn cell_equal(&self, x: usize, y: usize, other: &Cell) -> (same: bool)
        requires
            self.wf(),
        ensures
            same == (self.at(x as int, y as int) == Some(*other)),
    {
        if x >= self.width || y >= self.height {
            return false;
        }
        match &self.cells[y][x] {
            Some(cell) => *cell == *other,
            None => false,
        }
    }
}

/// A row of `width` cells that all hold `cell`.
pub fn row_of(cell: Option<Cell>, width: usize) -> (row: Vec<Option<Cell>>)
    ensures
        row@.len() == width,
        forall|i: int| 0 <= i < width ==> (#[trigger] row@[i]) == cell,
{
    let mut row: Vec<Option<Cell>> = Vec::new();
    let mut x: usize = 0;
    while x < width
        invariant
            x <= width,
            row@.len() == x,
            forall|i: int| 0 <= i < x ==> (#[trigger] row@[i]) == cell,
        decreases width - x,
    {
        row.push(cell);
        x += 1;
    }
    row
}

/// A rectangle of the screen, by its top left corner and its size.
#[derive(Clone, Copy, Debug)]
pub struct Rect {
    /// The x coordinate of the top left corner.
    pub x: u16,
    /// The y coordinate of the top left corner.
    pub y: u16,
    /// The width.
    pub width: u16,
    /// The height.
    pub height: u16,
}

impl Rect {
    /// The rectangle at `(x, y)` of the given size, cut where it would reach
    /// beyond the largest coordinate.
    pub fn new(x: u16, y: u16, width: u16, height: u16) -> (rect: Self)
        ensures
            rect.x == x,
            rect.y == y,
            rect.width == if width > u16::MAX - x {
                (u16::MAX - x) as u16
            } else {
                width
            },
            rect.height == if height > u16::MAX - y {
                (u16::MAX - y) as u16
            } else {
                height
            },
            rect.x + rect.width <= u16::MAX,
            rect.y + rect.height <= u16::MAX,
    {
        let max_width = u16::MAX - x;
        let max_height = u16::MAX - y;
        let width = if width > max_width {
            max_width
        } else {
            width
        };
        let height = if height > max_height {
            max_height
        } else {
            height
        };
        Self { x, y, width, height }
    }

    /// The number of cells.
    pub fn area(self) -> (a: u32)
        ensures
            a == self.width * self.height,
    {
        assert(self.width * self.height <= 0xffff * 0xffff) by (nonlinear_arith)
            requires
                self.width <= 0xffff,
                self.height <= 0xffff,
        ;
        (self.width as u32) * (self.height as u32)
    }

    /// Whether the rectangle holds no cell.
    pub fn is_empty(self) -> (r: bool)
        ensures
            r == (self.width == 0 || self.height == 0),
    {
        self.width == 0 || self.height == 0
    }

    /// The first column.
    pub fn left(&self) -> (r: u16)
        ensures
            r == self.x,
    {
        self.x
    }

    /// The first column to the right of the rectangle, or the largest
    /// coordinate where that is less.
    pub fn right(&self) -> (r: u16)
        ensures
            r == if self.x + self.width > u16::MAX {
                u16::MAX as int
            } else {
                self.x + self.width
            },
    {
        self.x.saturating_add(self.width)
    }

    /// The first row.
    pub fn top(&self) -> (r: u16)
        ensures
            r == self.y,
    {
        self.y
    }

    /// The first row below the rectangle, or the largest coordinate where
    /// that is less.
    pub fn bottom(&self) -> (r: u16)
        ensures
            r == if self.y + self.height > u16::MAX {
                u16::MAX as int
            } else {
                self.y + self.height
            },
    {
        self.y.saturating_add(self.height)
    }
}

} // verus!

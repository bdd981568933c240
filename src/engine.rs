use vstd::prelude::*;
use crate::board::{
    Board, MutationError, grid_shaped, grid_view, in_bounds, with_cell, zero_grid,
};
use crate::color::{Color, lemma_pack_round_trip, packed, parse_color, parse_color_spec, unpacked};

verus! {

/// Rows of the canvas.
pub const ROWS: usize = 16;

/// Columns of the canvas.
pub const COLS: usize = 32;

/// What an inbound message asks for.
#[derive(Clone, Copy, Debug, PartialEq, Eq, Structural)]
pub enum Mode {
    Draw,
    Erase,
    Clear,
}

/// An inbound client message. `x` is the column, `y` the row; `color` is
/// read only for `Draw`, and `x`, `y` are ignored for `Clear`.
#[derive(Debug)]
pub struct EventMessage {
    pub mode: Mode,
    pub x: u8,
    pub y: u8,
    pub color: String,
}

/// A validated request to change the board.
#[derive(Clone, Copy, Debug, PartialEq, Eq, Structural)]
pub enum Intent {
    Draw { x: u8, y: u8, color: Color },
    Erase { x: u8, y: u8 },
    Clear,
}

/// What the render sink is to do to mirror an applied mutation; `x` is the
/// column and `y` the row, as on the board.
#[derive(Clone, Copy, Debug, PartialEq, Eq, Structural)]
pub enum SinkOp {
    SetPixel { x: u8, y: u8, color: Color },
    Clear,
}

/// An applied mutation: the board after it, and the sink's matching step.
#[derive(Debug)]
pub struct Applied {
    pub snapshot: Vec<Vec<u32>>,
    pub sink: SinkOp,
}

/// The intent a message stands for.
pub open spec fn intent_spec(mode: Mode, x: u8, y: u8, color: Seq<char>) -> Result<
    Intent,
    MutationError,
> {
    match mode {
        Mode::Draw => match parse_color_spec(color) {
            Some(c) => Ok(Intent::Draw { x, y, color: c }),
            None => Err(MutationError::MalformedColor),
        },
        Mode::Erase => Ok(Intent::Erase { x, y }),
        Mode::Clear => Ok(Intent::Clear),
    }
}

/// The grid with every cell zero and the same shape.
pub open spec fn cleared(g: Seq<Seq<u32>>) -> Seq<Seq<u32>> {
    Seq::new(g.len(), |i: int| Seq::new(g[i].len(), |j: int| 0u32))
}

/// The grid after an intent, or the error that rejects it.
pub open spec fn apply_spec(g: Seq<Seq<u32>>, i: Intent) -> Result<Seq<Seq<u32>>, MutationError> {
    match i {
        Intent::Draw { x, y, color } => if in_bounds(g, x as int, y as int) {
            Ok(with_cell(g, x as int, y as int, packed(color) as u32))
        } else {
            Err(MutationError::OutOfBounds)
        },
        Intent::Erase { x, y } => if in_bounds(g, x as int, y as int) {
            Ok(with_cell(g, x as int, y as int, 0))
        } else {
            Err(MutationError::OutOfBounds)
        },
        Intent::Clear => Ok(cleared(g)),
    }
}

/// The sink's step for an intent.
pub open spec fn sink_spec(i: Intent) -> SinkOp {
    match i {
        Intent::Draw { x, y, color } => SinkOp::SetPixel { x, y, color },
        Intent::Erase { x, y } => SinkOp::SetPixel { x, y, color: Color { red: 0, green: 0, blue: 0 } },
        Intent::Clear => SinkOp::Clear,
    }
}

/// Drawing an in-bounds pixel sets exactly that cell to the packed color,
/// which reads back as the same color, and leaves every other cell and the
/// shape of the grid as they were.
pub proof fn lemma_draw_sets_only_its_cell(g: Seq<Seq<u32>>, x: u8, y: u8, c: Color)
    requires
        in_bounds(g, x as int, y as int),
    ensures
        apply_spec(g, Intent::Draw { x, y, color: c }) matches Ok(g2) && g2.len() == g.len() && (
        forall|i: int| 0 <= i < g.len() ==> (#[trigger] g2[i]).len() == g[i].len()) && g2[y as int][x
            as int] == packed(c) && unpacked(g2[y as int][x as int]) == c && (forall|i: int, j: int|
            0 <= i < g.len() && 0 <= j < g[i].len() && (i != y || j != x) ==> #[trigger] g2[i][j]
                == g[i][j]),
{
    lemma_pack_round_trip(c);
}

/// Clearing gives the all-zero grid of the same dimensions, whatever came
/// before, and clearing twice is the same as clearing once.
pub proof fn lemma_clear_zeroes_and_is_idempotent(g: Seq<Seq<u32>>, rows: nat, cols: nat)
    requires
        grid_shaped(g, rows, cols),
    ensures
        apply_spec(g, Intent::Clear) == Ok::<Seq<Seq<u32>>, MutationError>(zero_grid(rows, cols)),
        apply_spec(zero_grid(rows, cols), Intent::Clear) == Ok::<Seq<Seq<u32>>, MutationError>(
            zero_grid(rows, cols),
        ),
{
    assert(cleared(g) =~~= zero_grid(rows, cols));
    assert(cleared(zero_grid(rows, cols)) =~~= zero_grid(rows, cols));
}

/// Erasing right after drawing at the same in-bounds pixel brings that cell
/// back to the zero color: the result is the grid with only that cell zeroed.
pub proof fn lemma_draw_then_erase(g: Seq<Seq<u32>>, x: u8, y: u8, c: Color)
    requires
        in_bounds(g, x as int, y as int),
    ensures
        apply_spec(g, Intent::Draw { x, y, color: c }) matches Ok(g1) && apply_spec(
            g1,
            Intent::Erase { x, y },
        ) matches Ok(g2) && g2[y as int][x as int] == 0 && g2 == with_cell(
            g,
            x as int,
            y as int,
            0,
        ),
{
    let g1 = with_cell(g, x as int, y as int, packed(c) as u32);
    assert(with_cell(g1, x as int, y as int, 0) =~~= with_cell(g, x as int, y as int, 0));
}

/// `g` with the pixel at column `x`, row `y` drawn in `c`.
pub open spec fn drawn(g: Seq<Seq<u32>>, x: u8, y: u8, c: Color) -> Seq<Seq<u32>> {
    with_cell(g, x as int, y as int, packed(c) as u32)
}

/// Two in-bounds draws applied one after the other both succeed. At
/// different pixels the result holds both colors and does not depend on
/// their order; at the same pixel the later draw's color stands.
pub proof fn lemma_two_draws(
    g: Seq<Seq<u32>>,
    x1: u8,
    y1: u8,
    c1: Color,
    x2: u8,
    y2: u8,
    c2: Color,
)
    requires
        in_bounds(g, x1 as int, y1 as int),
        in_bounds(g, x2 as int, y2 as int),
    ensures
        apply_spec(g, Intent::Draw { x: x1, y: y1, color: c1 }) == Ok::<
            Seq<Seq<u32>>,
            MutationError,
        >(drawn(g, x1, y1, c1)),
        apply_spec(drawn(g, x1, y1, c1), Intent::Draw { x: x2, y: y2, color: c2 }) == Ok::<
            Seq<Seq<u32>>,
            MutationError,
        >(drawn(drawn(g, x1, y1, c1), x2, y2, c2)),
        drawn(drawn(g, x1, y1, c1), x2, y2, c2)[y2 as int][x2 as int] == packed(c2),
        (x1 != x2 || y1 != y2) ==> drawn(drawn(g, x1, y1, c1), x2, y2, c2)[y1 as int][x1 as int]
            == packed(c1),
        (x1 != x2 || y1 != y2) ==> drawn(drawn(g, x2, y2, c2), x1, y1, c1) == drawn(
            drawn(g, x1, y1, c1),
            x2,
            y2,
            c2,
        ),
        (x1 == x2 && y1 == y2) ==> drawn(drawn(g, x1, y1, c1), x2, y2, c2) == drawn(g, x2, y2, c2),
{
    lemma_pack_round_trip(c1);
    lemma_pack_round_trip(c2);
    let g2 = drawn(drawn(g, x1, y1, c1), x2, y2, c2);
    if x1 != x2 || y1 != y2 {
        assert(drawn(drawn(g, x2, y2, c2), x1, y1, c1) =~~= g2);
    } else {
        assert(g2 =~~= drawn(g, x2, y2, c2));
    }
}

impl Intent {
    /// The intent of a message; a `Draw` whose color is not `rgb(...)` or
    /// `rgba(...)` around three or four channels fails with `MalformedColor`.
    pub fn from_message(msg: &EventMessage) -> (r: Result<Intent, MutationError>)
        ensures
            r == intent_spec(msg.mode, msg.x, msg.y, msg.color@),
    {
        match msg.mode {
            Mode::Draw => match parse_color(msg.color.as_str()) {
                Some(c) => Ok(Intent::Draw { x: msg.x, y: msg.y, color: c }),
                None => Err(MutationError::MalformedColor),
            },
            Mode::Erase => Ok(Intent::Erase { x: msg.x, y: msg.y }),
            Mode::Clear => Ok(Intent::Clear),
        }
    }
}

/// The process-wide canvas state: the board that every session mutates.
pub struct AppState {
    board: Board,
}

impl View for AppState {
    type V = Seq<Seq<u32>>;

    closed spec fn view(&self) -> Seq<Seq<u32>> {
        self.board@
    }
}

impl Default for AppState {
    /// The same blank canvas of the standard size as `new`.
    fn default() -> (r: AppState)
        ensures
            r.wf(),
            r.spec_rows() == ROWS,
            r.spec_cols() == COLS,
            r@ == zero_grid(ROWS as nat, COLS as nat),
    {
        AppState::new()
    }
}

impl AppState {
    pub closed spec fn wf(&self) -> bool {
        self.board.wf()
    }

    pub closed spec fn spec_rows(&self) -> nat {
        self.board.spec_rows()
    }

    pub closed spec fn spec_cols(&self) -> nat {
        self.board.spec_cols()
    }

    /// A blank canvas of the standard size.
    pub fn new() -> (r: AppState)
        ensures
            r.wf(),
            r.spec_rows() == ROWS,
            r.spec_cols() == COLS,
            r@ == zero_grid(ROWS as nat, COLS as nat),
    {
        AppState::with_size(ROWS, COLS)
    }

    /// A blank canvas of `rows` rows and `cols` columns.
    pub fn with_size(rows: usize, cols: usize) -> (r: AppState)
        ensures
            r.wf(),
            r.spec_rows() == rows,
            r.spec_cols() == cols,
            r@ == zero_grid(rows as nat, cols as nat),
    {
        AppState { board: Board::new(rows, cols) }
    }

    /// A well-formed state has a grid of its fixed dimensions.
    pub proof fn lemma_shape(&self)
        requires
            self.wf(),
        ensures
            grid_shaped(self@, self.spec_rows(), self.spec_cols()),
    {
    }

    pub fn rows(&self) -> (r: usize)
        ensures
            r == self.spec_rows(),
    {
        self.board.rows()
    }

    pub fn cols(&self) -> (r: usize)
        ensures
            r == self.spec_cols(),
    {
        self.board.cols()
    }

    /// A deep copy of the current grid.
    pub fn snapshot(&self) -> (r: Vec<Vec<u32>>)
        ensures
            grid_view(r) == self@,
    {
        self.board.snapshot()
    }

    /// Applies an intent under last-write-wins; a rejected intent leaves the
    /// board as it was.
    pub fn apply(&mut self, intent: Intent) -> (r: Result<Applied, MutationError>)
        requires
            old(self).wf(),
        ensures
            final(self).wf(),
            final(self).spec_rows() == old(self).spec_rows(),
            final(self).spec_cols() == old(self).spec_cols(),
            match apply_spec(old(self)@, intent) {
                Ok(g) => r matches Ok(a) && final(self)@ == g && grid_view(a.snapshot) == g
                    && a.sink == sink_spec(intent),
                Err(e) => r == Err::<Applied, MutationError>(e) && final(self)@ == old(self)@,
            },
    {
        let res = match intent {
            Intent::Draw { x, y, color } => self.board.set(x as usize, y as usize, color),
            Intent::Erase { x, y } => self.board.set(x as usize, y as usize, Color::black()),
            Intent::Clear => {
                self.board.clear();
                proof {
                    assert(zero_grid(self.spec_rows(), self.spec_cols()) =~~= cleared(old(self)@));
                }
                Ok(())
            },
        };
        match res {
            Ok(()) => {
                let sink = match intent {
                    Intent::Draw { x, y, color } => SinkOp::SetPixel { x, y, color },
                    Intent::Erase { x, y } => SinkOp::SetPixel { x, y, color: Color::black() },
                    Intent::Clear => SinkOp::Clear,
                };
                Ok(Applied { snapshot: self.board.snapshot(), sink })
            },
            Err(e) => Err(e),
        }
    }

    /// Draws the pixel at column `x`, row `y` in the color named by `color`.
    pub fn draw_pixel(&mut self, x: u8, y: u8, color: &str) -> (r: Result<Applied, MutationError>)
        requires
            old(self).wf(),
        ensures
            final(self).wf(),
            final(self).spec_rows() == old(self).spec_rows(),
            final(self).spec_cols() == old(self).spec_cols(),
            match parse_color_spec(color@) {
                None => r == Err::<Applied, MutationError>(MutationError::MalformedColor)
                    && final(self)@ == old(self)@,
                Some(c) => match apply_spec(old(self)@, Intent::Draw { x, y, color: c }) {
                    Ok(g) => r matches Ok(a) && final(self)@ == g && grid_view(a.snapshot) == g
                        && a.sink == (SinkOp::SetPixel { x, y, color: c }),
                    Err(e) => r == Err::<Applied, MutationError>(e) && final(self)@ == old(self)@,
                },
            },
    {
        match parse_color(color) {
            Some(c) => self.apply(Intent::Draw { x, y, color: c }),
            None => Err(MutationError::MalformedColor),
        }
    }

    /// Sets the pixel at column `x`, row `y` back to the zero color.
    pub fn erase_pixel(&mut self, x: u8, y: u8) -> (r: Result<Applied, MutationError>)
        requires
            old(self).wf(),
        ensures
            final(self).wf(),
            final(self).spec_rows() == old(self).spec_rows(),
            final(self).spec_cols() == old(self).spec_cols(),
            match apply_spec(old(self)@, Intent::Erase { x, y }) {
                Ok(g) => r matches Ok(a) && final(self)@ == g && grid_view(a.snapshot) == g
                    && a.sink == sink_spec(Intent::Erase { x, y }),
                Err(e) => r == Err::<Applied, MutationError>(e) && final(self)@ == old(self)@,
            },
    {
        self.apply(Intent::Erase { x, y })
    }

    /// Resets every pixel to the zero color.
    pub fn clear(&mut self) -> (r: Applied)
        requires
            old(self).wf(),
        ensures
            final(self).wf(),
            final(self).spec_rows() == old(self).spec_rows(),
            final(self).spec_cols() == old(self).spec_cols(),
            final(self)@ == zero_grid(old(self).spec_rows(), old(self).spec_cols()),
            grid_view(r.snapshot) == final(self)@,
            r.sink == SinkOp::Clear,
    {
        let r = self.apply(Intent::Clear);
        match r {
            Ok(a) => {
                assert(zero_grid(self.spec_rows(), self.spec_cols()) =~~= cleared(old(self)@));
                a
            },
            Err(_) => {
                assert(false);
                Applied { snapshot: Vec::new(), sink: SinkOp::Clear }
            },
        }
    }

    /// Decodes a message and applies it; a message that does not decode, or
    /// that the board rejects, leaves the board unchanged.
    pub fn process_message(&mut self, msg: &EventMessage) -> (r: Result<Applied, MutationError>)
        requires
            old(self).wf(),
        ensures
            final(self).wf(),
            final(self).spec_rows() == old(self).spec_rows(),
            final(self).spec_cols() == old(self).spec_cols(),
            match intent_spec(msg.mode, msg.x, msg.y, msg.color@) {
                Err(e) => r == Err::<Applied, MutationError>(e) && final(self)@ == old(self)@,
                Ok(i) => match apply_spec(old(self)@, i) {
                    Ok(g) => r matches Ok(a) && final(self)@ == g && grid_view(a.snapshot) == g
                        && a.sink == sink_spec(i),
                    Err(e) => r == Err::<Applied, MutationError>(e) && final(self)@ == old(self)@,
                },
            },
    {
        match Intent::from_message(msg) {
            Ok(i) => self.apply(i),
            Err(e) => Err(e),
        }
    }
}

} // verus!

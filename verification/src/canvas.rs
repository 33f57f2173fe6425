//! A grid of styled terminal cells that tabs are drawn into, and the drawing operations
//! applied to it.

use vstd::prelude::*;

use crate::geometry::Rect;
use crate::style::{Color, Style};
use crate::text::string_push;

verus! {

/// One terminal cell: its symbol, colors and active text modifier bits.
#[derive(Clone, Debug, PartialEq, Eq)]
pub struct Cell {
    pub symbol: String,
    pub fg: Color,
    pub bg: Color,
    pub modifier: u16,
}

/// The contents of a [`Cell`] as mathematical values.
pub struct CellModel {
    pub symbol: Seq<char>,
    pub fg: Color,
    pub bg: Color,
    pub modifier: u16,
}

/// A cell's view.
pub open spec fn cell_view(c: Cell) -> CellModel {
    CellModel { symbol: c.symbol@, fg: c.fg, bg: c.bg, modifier: c.modifier }
}

/// What a drawing operation puts in a cell.
#[derive(Clone, Copy, Debug, PartialEq, Eq)]
pub enum Glyph<'a> {
    /// A symbol (one grapheme, such as a border glyph).
    Text(&'a str),
    /// A single character.
    Char(char),
}

/// The characters of a glyph.
pub open spec fn glyph_chars(g: Glyph) -> Seq<char> {
    match g {
        Glyph::Text(s) => s@,
        Glyph::Char(c) => seq![c],
    }
}

/// Sets the symbol of cell `(x, y)` to `glyph` and applies `style` to it.
#[derive(Clone, Copy, Debug, PartialEq, Eq)]
pub struct DrawOp<'a> {
    pub x: u16,
    pub y: u16,
    pub glyph: Glyph<'a>,
    pub style: Style,
}

/// A cell after `style` is applied: colors that the style sets replace the cell's, and
/// modifier bits are added, then removed.
pub open spec fn styled(c: CellModel, style: Style) -> CellModel {
    CellModel {
        symbol: c.symbol,
        fg: match style.fg {
            Some(f) => f,
            None => c.fg,
        },
        bg: match style.bg {
            Some(b) => b,
            None => c.bg,
        },
        modifier: (c.modifier | style.add_modifier) & !style.sub_modifier,
    }
}

/// The cell after a drawing operation.
pub open spec fn drawn(c: CellModel, op: DrawOp) -> CellModel {
    styled(CellModel { symbol: glyph_chars(op.glyph), ..c }, op.style)
}

/// A blank cell: a space in the default colors, without modifiers.
pub open spec fn blank_cell() -> CellModel {
    CellModel { symbol: seq![' '], fg: Color::Reset, bg: Color::Reset, modifier: 0 }
}

/// Position of cell `(x, y)` in the row-major cell list of `area`.
pub open spec fn cell_index(area: Rect, x: int, y: int) -> int {
    (y - area.y) * area.width + (x - area.x)
}

/// Whether `(x, y)` lies in `area` (without saturation).
pub open spec fn in_area(area: Rect, x: int, y: int) -> bool {
    area.x <= x < area.x + area.width && area.y <= y < area.y + area.height
}

/// The cells after one operation: the addressed cell is drawn when it lies in the area,
/// and every other cell is kept.
pub open spec fn painted_one(area: Rect, cells: Seq<CellModel>, op: DrawOp) -> Seq<CellModel> {
    if in_area(area, op.x as int, op.y as int) {
        let i = cell_index(area, op.x as int, op.y as int);
        cells.update(i, drawn(cells[i], op))
    } else {
        cells
    }
}

/// The cells after the operations, applied in order.
pub open spec fn painted(area: Rect, cells: Seq<CellModel>, ops: Seq<DrawOp>) -> Seq<CellModel>
    decreases ops.len(),
{
    if ops.len() == 0 {
        cells
    } else {
        painted_one(area, painted(area, cells, ops.drop_last()), ops.last())
    }
}

/// Painting keeps the number of cells.
pub proof fn lemma_painted_len(area: Rect, cells: Seq<CellModel>, ops: Seq<DrawOp>)
    requires
        cells.len() == area.width * area.height,
    ensures
        painted(area, cells, ops).len() == cells.len(),
    decreases ops.len(),
{
    if ops.len() > 0 {
        lemma_painted_len(area, cells, ops.drop_last());
        let o = ops.last();
        if in_area(area, o.x as int, o.y as int) {
            lemma_cell_index_bounds(area, o.x as int, o.y as int);
        }
    }
}

/// Painting `a` then `b` is painting `a + b`.
pub proof fn lemma_painted_append(area: Rect, cells: Seq<CellModel>, a: Seq<DrawOp>, b: Seq<DrawOp>)
    ensures
        painted(area, cells, a + b) == painted(area, painted(area, cells, a), b),
    decreases b.len(),
{
    if b.len() == 0 {
        assert(a + b =~= a);
    } else {
        assert((a + b).drop_last() =~= a + b.drop_last());
        assert((a + b).last() == b.last());
        lemma_painted_append(area, cells, a, b.drop_last());
    }
}

/// Distinct cells of an area have distinct positions in its cell list.
pub proof fn lemma_cell_index_injective(area: Rect, x1: int, y1: int, x2: int, y2: int)
    requires
        in_area(area, x1, y1),
        in_area(area, x2, y2),
        cell_index(area, x1, y1) == cell_index(area, x2, y2),
    ensures
        x1 == x2 && y1 == y2,
{
    let w = area.width as int;
    let a1 = y1 - area.y;
    let b1 = x1 - area.x;
    let a2 = y2 - area.y;
    let b2 = x2 - area.x;
    assert(a1 == a2 && b1 == b2) by (nonlinear_arith)
        requires
            0 <= b1 < w,
            0 <= b2 < w,
            0 <= a1,
            0 <= a2,
            a1 * w + b1 == a2 * w + b2,
    {
        if a1 < a2 {
            assert(a1 * w + w <= a2 * w);
        } else if a2 < a1 {
            assert(a2 * w + w <= a1 * w);
        }
    }
}

/// Whether operation `o` addresses cell `(x, y)`.
pub open spec fn addresses(o: DrawOp, x: int, y: int) -> bool {
    o.x == x && o.y == y
}

/// Operations that do not address cell `(x, y)` leave it as it was.
pub proof fn lemma_painted_untouched(area: Rect, cells: Seq<CellModel>, ops: Seq<DrawOp>, x: int, y: int)
    requires
        cells.len() == area.width * area.height,
        in_area(area, x, y),
        forall|k: int| 0 <= k < ops.len() ==> !addresses(#[trigger] ops[k], x, y),
    ensures
        painted(area, cells, ops)[cell_index(area, x, y)] == cells[cell_index(area, x, y)],
    decreases ops.len(),
{
    if ops.len() > 0 {
        let rest = ops.drop_last();
        assert forall|k: int| 0 <= k < rest.len() implies !addresses(#[trigger] rest[k], x, y) by {
            assert(rest[k] == ops[k]);
        }
        lemma_painted_untouched(area, cells, rest, x, y);
        lemma_painted_len(area, cells, rest);
        lemma_cell_index_bounds(area, x, y);
        let o = ops.last();
        assert(!addresses(ops[ops.len() - 1], x, y));
        if in_area(area, o.x as int, o.y as int) {
            lemma_cell_index_bounds(area, o.x as int, o.y as int);
            if cell_index(area, o.x as int, o.y as int) == cell_index(area, x, y) {
                lemma_cell_index_injective(area, o.x as int, o.y as int, x, y);
            }
        }
    }
}

/// The cell addressed by operation `o`, followed by operations that leave it alone, is
/// the cell as `o` draws it.
pub proof fn lemma_painted_last_touch(
    area: Rect,
    cells: Seq<CellModel>,
    a: Seq<DrawOp>,
    o: DrawOp,
    b: Seq<DrawOp>,
)
    requires
        cells.len() == area.width * area.height,
        in_area(area, o.x as int, o.y as int),
        forall|k: int| 0 <= k < b.len() ==> !addresses(#[trigger] b[k], o.x as int, o.y as int),
    ensures
        ({
            let i = cell_index(area, o.x as int, o.y as int);
            painted(area, cells, a + seq![o] + b)[i] == drawn(painted(area, cells, a)[i], o)
        }),
{
    let i = cell_index(area, o.x as int, o.y as int);
    lemma_painted_append(area, cells, a + seq![o], b);
    lemma_painted_append(area, cells, a, seq![o]);
    let before = painted(area, cells, a);
    lemma_painted_len(area, cells, a);
    assert(seq![o].drop_last() =~= Seq::<DrawOp>::empty());
    assert(painted(area, before, Seq::<DrawOp>::empty()) == before);
    assert(seq![o].last() == o);
    let mid = painted(area, before, seq![o]);
    assert(mid == painted_one(area, before, o));
    lemma_cell_index_bounds(area, o.x as int, o.y as int);
    assert(mid[i] == drawn(before[i], o));
    assert(mid.len() == cells.len());
    lemma_painted_untouched(area, mid, b, o.x as int, o.y as int);
}

/// A grid of cells covering `area`, stored row by row.
pub struct Canvas {
    pub area: Rect,
    pub cells: Vec<Cell>,
}

impl View for Canvas {
    type V = Seq<CellModel>;

    open spec fn view(&self) -> Seq<CellModel> {
        self.cells@.map_values(|c: Cell| cell_view(c))
    }
}

/// The cell count of an area fits in `usize`.
proof fn lemma_area_cells_fit(w: u16, h: u16)
    ensures
        0 <= (w as int) * (h as int) <= 0xffff_ffff,
        (w as int) * (h as int) <= usize::MAX,
{
    assert(0 <= (w as int) * (h as int) <= 65535 * 65535) by (nonlinear_arith)
        requires
            0 <= w <= 65535,
            0 <= h <= 65535,
    ;
}

/// `lo <= idx < hi` when `idx` addresses a cell of `area`.
proof fn lemma_cell_index_bounds(area: Rect, x: int, y: int)
    requires
        in_area(area, x, y),
    ensures
        0 <= cell_index(area, x, y) < area.width * area.height,
{
    let dy = y - area.y;
    let dx = x - area.x;
    assert(0 <= dy < area.height && 0 <= dx < area.width);
    assert(dy * area.width + dx < area.width * area.height) by (nonlinear_arith)
        requires
            0 <= dy < area.height,
            0 <= dx < area.width,
    ;
    assert(0 <= dy * area.width) by (nonlinear_arith)
        requires
            0 <= dy,
            0 <= area.width,
    ;
}

impl Canvas {
    /// The cell list matches the area.
    pub open spec fn wf(&self) -> bool {
        self.cells@.len() == self.area.width * self.area.height
    }

    /// A canvas of blank cells covering `area`.
    pub fn empty(area: Rect) -> (c: Canvas)
        ensures
            c.area == area,
            c.wf(),
            forall|i: int| 0 <= i < c@.len() ==> #[trigger] c@[i] == blank_cell(),
    {
        proof {
            lemma_area_cells_fit(area.width, area.height);
        }
        let n: usize = area.width as usize * area.height as usize;
        let mut cells: Vec<Cell> = Vec::new();
        let mut i: usize = 0;
        while i < n
            invariant
                i <= n,
                cells@.len() == i,
                forall|k: int| 0 <= k < i ==> #[trigger] cell_view(cells@[k]) == blank_cell(),
            decreases n - i,
        {
            let mut symbol = String::new();
            string_push(&mut symbol, ' ');
            cells.push(Cell { symbol, fg: Color::Reset, bg: Color::Reset, modifier: 0 });
            i += 1;
        }
        Canvas { area, cells }
    }

    fn offset_of(&self, x: u16, y: u16) -> (r: Option<usize>)
        requires
            self.wf(),
        ensures
            r is Some <==> in_area(self.area, x as int, y as int),
            r matches Some(i) ==> i == cell_index(self.area, x as int, y as int) && i
                < self.cells@.len(),
    {
        if x < self.area.x || y < self.area.y {
            return None;
        }
        let dx = x - self.area.x;
        let dy = y - self.area.y;
        if dx >= self.area.width || dy >= self.area.height {
            return None;
        }
        proof {
            lemma_cell_index_bounds(self.area, x as int, y as int);
            lemma_area_cells_fit(self.area.width, self.area.height);
            assert(dy * self.area.width <= (self.area.height - 1) * self.area.width) by (nonlinear_arith)
                requires
                    0 <= dy < self.area.height,
                    0 <= self.area.width,
            ;
            assert((self.area.height - 1) * self.area.width + self.area.width == self.area.height * self.area.width) by (nonlinear_arith);
        }
        Some(dy as usize * self.area.width as usize + dx as usize)
    }

    /// Applies one drawing operation; a cell outside the canvas is left alone.
    pub fn apply(&mut self, op: &DrawOp)
        requires
            old(self).wf(),
        ensures
            final(self).wf(),
            final(self).area == old(self).area,
            final(self)@ == painted_one(old(self).area, old(self)@, *op),
    {
        let i = match self.offset_of(op.x, op.y) {
            Some(i) => i,
            None => {
                return;
            },
        };
        let old_cell = &self.cells[i];
        let mut symbol = String::new();
        match op.glyph {
            Glyph::Text(s) => {
                symbol.append(s);
            },
            Glyph::Char(c) => {
                string_push(&mut symbol, c);
            },
        }
        let fg = match op.style.fg {
            Some(f) => f,
            None => old_cell.fg,
        };
        let bg = match op.style.bg {
            Some(b) => b,
            None => old_cell.bg,
        };
        let modifier = (old_cell.modifier | op.style.add_modifier) & !op.style.sub_modifier;
        let cell = Cell { symbol, fg, bg, modifier };
        let ghost before = self@;
        self.cells.set(i, cell);
        assert(self@ =~= before.update(i as int, drawn(before[i as int], *op)));
    }

    /// Applies drawing operations in order.
    pub fn paint(&mut self, ops: &Vec<DrawOp>)
        requires
            old(self).wf(),
        ensures
            final(self).wf(),
            final(self).area == old(self).area,
            final(self)@ == painted(old(self).area, old(self)@, ops@),
    {
        let ghost start = self@;
        let mut i: usize = 0;
        while i < ops.len()
            invariant
                i <= ops@.len(),
                self.wf(),
                self.area == old(self).area,
                start == old(self)@,
                self@ == painted(self.area, start, ops@.take(i as int)),
            decreases ops@.len() - i,
        {
            assert(ops@.take(i + 1).drop_last() =~= ops@.take(i as int));
            self.apply(&ops[i]);
            i += 1;
        }
        assert(ops@.take(ops@.len() as int) =~= ops@);
    }

    /// The cell at `(x, y)`.
    pub fn cell(&self, x: u16, y: u16) -> (c: &Cell)
        requires
            self.wf(),
            in_area(self.area, x as int, y as int),
        ensures
            cell_view(*c) == self@[cell_index(self.area, x as int, y as int)],
    {
        proof {
            lemma_cell_index_bounds(self.area, x as int, y as int);
        }
        let i = dy_dx_index(self.area, x, y);
        &self.cells[i]
    }

    /// The symbol at `(x, y)`.
    pub fn symbol(&self, x: u16, y: u16) -> (s: &str)
        requires
            self.wf(),
            in_area(self.area, x as int, y as int),
        ensures
            s@ == self@[cell_index(self.area, x as int, y as int)].symbol,
    {
        self.cell(x, y).symbol.as_str()
    }
}

/// Position of `(x, y)` in the row-major cell list of `area`.
fn dy_dx_index(area: Rect, x: u16, y: u16) -> (i: usize)
    requires
        in_area(area, x as int, y as int),
    ensures
        i == cell_index(area, x as int, y as int),
{
    proof {
        lemma_cell_index_bounds(area, x as int, y as int);
        lemma_area_cells_fit(area.width, area.height);
        let dy = y - area.y;
        assert(dy * area.width <= (area.height - 1) * area.width) by (nonlinear_arith)
            requires
                0 <= dy < area.height,
                0 <= area.width,
        ;
        assert((area.height - 1) * area.width + area.width == area.height * area.width) by (nonlinear_arith);
    }
    (y - area.y) as usize * area.width as usize + (x - area.x) as usize
}

} // verus!

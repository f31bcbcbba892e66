use vstd::prelude::*;

verus! {

/// Edge length of one grid cell, in canvas units.
pub const CELL_SIZE: u64 = 50;

/// A fill colour `rgb(red, green, 0)`; blue is always 0.
#[derive(Clone, Copy, Debug, PartialEq, Eq, Structural)]
pub struct Color {
    pub red: u8,
    pub green: u8,
}

/// `v` clamped to the range of a colour channel.
pub open spec fn clamped(v: i64) -> u8 {
    if v < 0 {
        0
    } else if v > 255 {
        255
    } else {
        v as u8
    }
}

/// Clamps a scaled channel value (`round(255 * ratio)`) to `[0, 255]`.
pub fn clamp_channel(v: i64) -> (r: u8)
    ensures
        r == clamped(v),
{
    if v < 0 {
        0
    } else if v > 255 {
        255
    } else {
        v as u8
    }
}

/// The colour of a cell from its scaled red and green channel values.
pub fn color_from_scaled(red: i64, green: i64) -> (c: Color)
    ensures
        c.red == clamped(red),
        c.green == clamped(green),
{
    Color { red: clamp_channel(red), green: clamp_channel(green) }
}

pub open spec fn digit_char(d: nat) -> char {
    if d == 0 { '0' }
    else if d == 1 { '1' }
    else if d == 2 { '2' }
    else if d == 3 { '3' }
    else if d == 4 { '4' }
    else if d == 5 { '5' }
    else if d == 6 { '6' }
    else if d == 7 { '7' }
    else if d == 8 { '8' }
    else { '9' }
}

/// The decimal numeral of `n`, without leading zeros.
pub open spec fn decimal_of(n: nat) -> Seq<char>
    decreases n,
{
    if n < 10 {
        seq![digit_char(n)]
    } else {
        decimal_of(n / 10).push(digit_char(n % 10))
    }
}

fn digit_str(d: u64) -> (s: &'static str)
    requires
        d < 10,
    ensures
        s@ == seq![digit_char(d as nat)],
{
    if d == 0 {
        proof { reveal_strlit("0"); }
        "0"
    } else if d == 1 {
        proof { reveal_strlit("1"); }
        "1"
    } else if d == 2 {
        proof { reveal_strlit("2"); }
        "2"
    } else if d == 3 {
        proof { reveal_strlit("3"); }
        "3"
    } else if d == 4 {
        proof { reveal_strlit("4"); }
        "4"
    } else if d == 5 {
        proof { reveal_strlit("5"); }
        "5"
    } else if d == 6 {
        proof { reveal_strlit("6"); }
        "6"
    } else if d == 7 {
        proof { reveal_strlit("7"); }
        "7"
    } else if d == 8 {
        proof { reveal_strlit("8"); }
        "8"
    } else {
        proof { reveal_strlit("9"); }
        "9"
    }
}

/// Appends the decimal numeral of `n` to `out`.
pub fn push_decimal(out: &mut String, n: u64)
    ensures
        final(out)@ == old(out)@ + decimal_of(n as nat),
    decreases n,
{
    if n < 10 {
        out.append(digit_str(n));
    } else {
        push_decimal(out, n / 10);
        out.append(digit_str(n % 10));
        proof {
            assert(old(out)@ + decimal_of(n as nat) =~= old(out)@ + decimal_of((n / 10) as nat)
                + seq![digit_char((n % 10) as nat)]);
        }
    }
}

/// The markup of the cell at column `x`, row `y`.
pub open spec fn rect_markup(x: nat, y: nat, c: Color) -> Seq<char> {
    "<rect x=\""@ + decimal_of((x * CELL_SIZE) as nat) + "\" y=\""@ + decimal_of((y * CELL_SIZE) as nat)
        + "\" width=\""@ + decimal_of(CELL_SIZE as nat) + "\" height=\""@ + decimal_of(
        CELL_SIZE as nat,
    ) + "\" fill=\"rgb("@ + decimal_of(c.red as nat) + ", "@ + decimal_of(c.green as nat)
        + ", 0)\" stroke=\"black\" stroke-width=\"1\"/>"@
}

/// The markup of the cells of row `y`, left to right.
pub open spec fn row_markup(y: nat, row: Seq<Color>) -> Seq<char>
    decreases row.len(),
{
    if row.len() == 0 {
        Seq::empty()
    } else {
        row_markup(y, row.drop_last()) + rect_markup((row.len() - 1) as nat, y, row.last())
    }
}

/// The markup of all cells, row by row from the top.
pub open spec fn cells_markup(cells: Seq<Vec<Color>>) -> Seq<char>
    decreases cells.len(),
{
    if cells.len() == 0 {
        Seq::empty()
    } else {
        cells_markup(cells.drop_last()) + row_markup((cells.len() - 1) as nat, cells.last()@)
    }
}

/// Number of columns of a grid; 0 for a grid without rows.
pub open spec fn column_count(cells: Seq<Vec<Color>>) -> nat {
    if cells.len() == 0 {
        0
    } else {
        cells[0]@.len()
    }
}

/// All rows have the same number of columns, and the canvas extent fits a
/// `u64`.
pub open spec fn grid_ok(cells: Seq<Vec<Color>>) -> bool {
    &&& forall|i: int| 0 <= i < cells.len() ==> (#[trigger] cells[i])@.len() == column_count(cells)
    &&& cells.len() * CELL_SIZE <= u64::MAX
    &&& column_count(cells) * CELL_SIZE <= u64::MAX
}

/// The opening tag of a canvas sized to hold exactly the grid.
pub open spec fn canvas_open(cells: Seq<Vec<Color>>) -> Seq<char> {
    "<svg width=\""@ + decimal_of((column_count(cells) * CELL_SIZE) as nat) + "\" height=\""@
        + decimal_of((cells.len() * CELL_SIZE) as nat) + "\" xmlns=\"http://www.w3.org/2000/svg\">"@
}

/// The markup of a grid of coloured cells.
pub open spec fn grid_markup(cells: Seq<Vec<Color>>) -> Seq<char> {
    canvas_open(cells) + cells_markup(cells) + "</svg>"@
}

fn push_rect(out: &mut String, x: u64, y: u64, c: Color)
    requires
        x * CELL_SIZE <= u64::MAX,
        y * CELL_SIZE <= u64::MAX,
    ensures
        final(out)@ == old(out)@ + rect_markup(x as nat, y as nat, c),
{
    out.append("<rect x=\"");
    push_decimal(out, x * CELL_SIZE);
    out.append("\" y=\"");
    push_decimal(out, y * CELL_SIZE);
    out.append("\" width=\"");
    push_decimal(out, CELL_SIZE);
    out.append("\" height=\"");
    push_decimal(out, CELL_SIZE);
    out.append("\" fill=\"rgb(");
    push_decimal(out, c.red as u64);
    out.append(", ");
    push_decimal(out, c.green as u64);
    out.append(", 0)\" stroke=\"black\" stroke-width=\"1\"/>");
    proof {
        assert(final(out)@ =~= old(out)@ + rect_markup(x as nat, y as nat, c));
    }
}

/// Appends the markup of a grid of coloured cells to `out`: a canvas of
/// `columns * CELL_SIZE` by `rows * CELL_SIZE`, and one square per cell at
/// `(column * CELL_SIZE, row * CELL_SIZE)` with a black stroke of width 1.
/// A grid without rows gives an empty canvas.
pub fn push_grid(out: &mut String, cells: &Vec<Vec<Color>>)
    requires
        grid_ok(cells@),
    ensures
        final(out)@ == old(out)@ + grid_markup(cells@),
{
    let ghost start = out@;
    let cols: u64 = if cells.len() == 0 {
        0
    } else {
        cells[0].len() as u64
    };
    out.append("<svg width=\"");
    push_decimal(out, cols * CELL_SIZE);
    out.append("\" height=\"");
    push_decimal(out, cells.len() as u64 * CELL_SIZE);
    out.append("\" xmlns=\"http://www.w3.org/2000/svg\">");
    let ghost opened = out@;
    proof {
        assert(opened =~= start + canvas_open(cells@));
    }
    let mut y: usize = 0;
    while y < cells.len()
        invariant
            grid_ok(cells@),
            0 <= y <= cells@.len(),
            out@ == opened + cells_markup(cells@.take(y as int)),
        decreases cells.len() - y,
    {
        let row = &cells[y];
        let ghost before = out@;
        let mut x: usize = 0;
        while x < row.len()
            invariant
                grid_ok(cells@),
                0 <= y < cells@.len(),
                row == cells@[y as int],
                0 <= x <= row@.len(),
                out@ == before + row_markup(y as nat, row@.take(x as int)),
            decreases row.len() - x,
        {
            let ghost mid = out@;
            assert(row@.len() == column_count(cells@));
            push_rect(out, x as u64, y as u64, row[x]);
            proof {
                assert(row@.take(x as int + 1).drop_last() =~= row@.take(x as int));
                assert(out@ =~= before + row_markup(y as nat, row@.take(x as int + 1)));
            }
            x = x + 1;
        }
        proof {
            assert(row@.take(x as int) =~= row@);
            assert(cells@.take(y as int + 1).drop_last() =~= cells@.take(y as int));
            assert(out@ =~= opened + cells_markup(cells@.take(y as int + 1)));
        }
        y = y + 1;
    }
    out.append("</svg>");
    proof {
        assert(cells@.take(y as int) =~= cells@);
        assert(out@ =~= start + grid_markup(cells@));
    }
}

/// The markup of a grid of coloured cells (see `push_grid`).
pub fn render_grid(cells: &Vec<Vec<Color>>) -> (r: String)
    requires
        grid_ok(cells@),
    ensures
        r@ == grid_markup(cells@),
{
    let mut r = String::new();
    push_grid(&mut r, cells);
    proof {
        assert(r@ =~= grid_markup(cells@));
    }
    r
}

/// A sheet's name and the colours of its grid, one row per record.
pub struct SheetGrid {
    pub name: String,
    pub cells: Vec<Vec<Color>>,
}

/// The markup of one sheet: a heading with its name, then its grid.
pub open spec fn sheet_markup(s: SheetGrid) -> Seq<char> {
    "<h3>"@ + s.name@ + "</h3>"@ + grid_markup(s.cells@)
}

/// The markup of all sheets, in the order given.
pub open spec fn workbook_markup(sheets: Seq<SheetGrid>) -> Seq<char>
    decreases sheets.len(),
{
    if sheets.len() == 0 {
        Seq::empty()
    } else {
        workbook_markup(sheets.drop_last()) + sheet_markup(sheets.last())
    }
}

pub open spec fn grids_ok(sheets: Seq<SheetGrid>) -> bool {
    forall|i: int| 0 <= i < sheets.len() ==> grid_ok((#[trigger] sheets[i]).cells@)
}

/// Renders every sheet, each as a heading followed by its grid.
pub fn render_workbook(sheets: &Vec<SheetGrid>) -> (r: String)
    requires
        grids_ok(sheets@),
    ensures
        r@ == workbook_markup(sheets@),
{
    let mut r = String::new();
    let mut i: usize = 0;
    proof {
        assert(r@ =~= workbook_markup(sheets@.take(0)));
    }
    while i < sheets.len()
        invariant
            grids_ok(sheets@),
            0 <= i <= sheets@.len(),
            r@ == workbook_markup(sheets@.take(i as int)),
        decreases sheets.len() - i,
    {
        let s = &sheets[i];
        let ghost before = r@;
        r.append("<h3>");
        r.append(s.name.as_str());
        r.append("</h3>");
        push_grid(&mut r, &s.cells);
        proof {
            assert(sheets@.take(i as int + 1).drop_last() =~= sheets@.take(i as int));
            assert(r@ =~= before + sheet_markup(sheets@[i as int]));
        }
        i = i + 1;
    }
    proof {
        assert(sheets@.take(i as int) =~= sheets@);
    }
    r
}

proof fn lemma_cells_markup_repeatable(a: Seq<Vec<Color>>, b: Seq<Vec<Color>>)
    requires
        a.len() == b.len(),
        forall|i: int| 0 <= i < a.len() ==> (#[trigger] a[i])@ == b[i]@,
    ensures
        cells_markup(a) == cells_markup(b),
    decreases a.len(),
{
    if a.len() > 0 {
        let (a0, b0) = (a.drop_last(), b.drop_last());
        assert forall|i: int| 0 <= i < a0.len() implies (#[trigger] a0[i])@ == b0[i]@ by {
            assert(a0[i] == a[i] && b0[i] == b[i]);
        }
        lemma_cells_markup_repeatable(a0, b0);
        assert(a.last()@ == b.last()@);
    }
}

/// Rendering is a function of the colours alone: two grids with the same
/// rows of colours render to the same markup, character for character.
pub proof fn lemma_render_repeatable(a: Seq<Vec<Color>>, b: Seq<Vec<Color>>)
    requires
        a.len() == b.len(),
        forall|i: int| 0 <= i < a.len() ==> (#[trigger] a[i])@ == b[i]@,
    ensures
        grid_markup(a) == grid_markup(b),
{
    lemma_cells_markup_repeatable(a, b);
    if a.len() > 0 {
        assert(a[0]@ == b[0]@);
    }
}

} // verus!

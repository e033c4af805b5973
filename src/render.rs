use vstd::prelude::*;
use crate::game::{CellContent, Grid, width_of};

verus! {

/// The character of the decimal digit `d`.
pub open spec fn digit_char(d: nat) -> char {
    if d == 0 {
        '0'
    } else if d == 1 {
        '1'
    } else if d == 2 {
        '2'
    } else if d == 3 {
        '3'
    } else if d == 4 {
        '4'
    } else if d == 5 {
        '5'
    } else if d == 6 {
        '6'
    } else if d == 7 {
        '7'
    } else if d == 8 {
        '8'
    } else {
        '9'
    }
}

/// `n` written in decimal, without leading zeros.
pub open spec fn decimal(n: nat) -> Seq<char>
    decreases n,
{
    if n < 10 {
        seq![digit_char(n)]
    } else {
        decimal(n / 10) + seq![digit_char(n % 10)]
    }
}

/// The letter that shows a cell: `E` for empty, `C` for a creature, `F` for food.
pub open spec fn cell_code<C, F>(cell: CellContent<C, F>) -> char {
    match cell {
        CellContent::Creature(_) => 'C',
        CellContent::Food(_) => 'F',
        CellContent::Empty => 'E',
    }
}

/// The cells of `row`, each as its letter followed by a space.
pub open spec fn cells_text<C, F>(row: Seq<CellContent<C, F>>) -> Seq<char>
    decreases row.len(),
{
    if row.len() == 0 {
        Seq::empty()
    } else {
        cells_text(row.drop_last()) + seq![cell_code(row.last()), ' ']
    }
}

/// The column numbers `0` to `n - 1`, each followed by a space.
pub open spec fn columns_text(n: nat) -> Seq<char>
    decreases n,
{
    if n == 0 {
        Seq::empty()
    } else {
        columns_text((n - 1) as nat) + decimal((n - 1) as nat) + seq![' ']
    }
}

/// The line that shows row number `r`: the number, a space, the cells, and
/// a blank line after it.
pub open spec fn row_line<C, F>(r: nat, row: Seq<CellContent<C, F>>) -> Seq<char> {
    decimal(r) + seq![' '] + cells_text(row) + seq!['\n', '\n']
}

/// The lines of all rows of `m`, top row first.
pub open spec fn rows_text<C, F>(m: Seq<Vec<CellContent<C, F>>>) -> Seq<char>
    decreases m.len(),
{
    if m.len() == 0 {
        Seq::empty()
    } else {
        rows_text(m.drop_last()) + row_line((m.len() - 1) as nat, m.last()@)
    }
}

/// The text view of a grid: two spaces and the column numbers, a blank line,
/// then one line per row.
pub open spec fn grid_text<C, F>(m: Seq<Vec<CellContent<C, F>>>) -> Seq<char> {
    seq![' ', ' '] + columns_text(width_of(m) as nat) + seq!['\n', '\n'] + rows_text(m)
}

/// In the line of row `r`, the letter of cell `c` stands right after the row
/// number, its space, and the two characters of each cell before it; the
/// line holds exactly two characters per cell besides the number and the
/// line ends.
pub proof fn lemma_cell_code_position<C, F>(r: nat, row: Seq<CellContent<C, F>>, c: int)
    requires
        0 <= c < row.len(),
    ensures
        row_line(r, row).len() == decimal(r).len() + 1 + 2 * row.len() + 2,
        row_line(r, row)[decimal(r).len() + 1 + 2 * c] == cell_code(row[c]),
{
    lemma_cells_text(row);
}

/// `cells_text(row)` has two characters per cell, the letter of cell `c` at
/// `2 * c` and a space after it.
proof fn lemma_cells_text<C, F>(row: Seq<CellContent<C, F>>)
    ensures
        cells_text(row).len() == 2 * row.len(),
        forall|c: int|
            0 <= c < row.len() ==> #[trigger] cells_text(row)[2 * c] == cell_code(row[c])
                && cells_text(row)[2 * c + 1] == ' ',
    decreases row.len(),
{
    if row.len() > 0 {
        let front = row.drop_last();
        lemma_cells_text(front);
        assert forall|c: int| 0 <= c < row.len() implies #[trigger] cells_text(row)[2 * c] == cell_code(row[c])
            && cells_text(row)[2 * c + 1] == ' ' by {
            if c < row.len() - 1 {
                assert(cells_text(front)[2 * c] == cell_code(front[c]));
            }
        }
    }
}

/// The text of the decimal digit `d`.
fn digit_text(d: usize) -> (r: &'static str)
    requires
        d < 10,
    ensures
        r@ == seq![digit_char(d as nat)],
{
    proof {
        reveal_strlit("0");
        reveal_strlit("1");
        reveal_strlit("2");
        reveal_strlit("3");
        reveal_strlit("4");
        reveal_strlit("5");
        reveal_strlit("6");
        reveal_strlit("7");
        reveal_strlit("8");
        reveal_strlit("9");
    }
    if d == 0 {
        "0"
    } else if d == 1 {
        "1"
    } else if d == 2 {
        "2"
    } else if d == 3 {
        "3"
    } else if d == 4 {
        "4"
    } else if d == 5 {
        "5"
    } else if d == 6 {
        "6"
    } else if d == 7 {
        "7"
    } else if d == 8 {
        "8"
    } else {
        "9"
    }
}

/// Appends `n` in decimal to `s`.
fn append_decimal(s: &mut String, n: usize)
    ensures
        final(s)@ == old(s)@ + decimal(n as nat),
    decreases n,
{
    if n >= 10 {
        append_decimal(s, n / 10);
        s.append(digit_text(n % 10));
        assert(final(s)@ =~= old(s)@ + decimal(n as nat));
    } else {
        s.append(digit_text(n));
    }
}

/// The text of one cell: its letter and a space.
fn cell_text<C, F>(cell: &CellContent<C, F>) -> (r: &'static str)
    ensures
        r@ == seq![cell_code(*cell), ' '],
{
    proof {
        reveal_strlit("C ");
        reveal_strlit("F ");
        reveal_strlit("E ");
    }
    match cell {
        CellContent::Creature(_) => "C ",
        CellContent::Food(_) => "F ",
        CellContent::Empty => "E ",
    }
}

/// The text view of `m`, as `grid_text` gives it.
pub fn render_grid<C, F>(m: &Grid<C, F>) -> (r: String)
    ensures
        r@ == grid_text(m@),
{
    proof {
        reveal_strlit("  ");
        reveal_strlit(" ");
        reveal_strlit("\n\n");
    }
    let width = if m.len() == 0 {
        0
    } else {
        m[0].len()
    };
    let mut s = String::new();
    s.append("  ");
    let mut col: usize = 0;
    while col < width
        invariant
            col <= width,
            width == width_of(m@),
            s@ == seq![' ', ' '] + columns_text(col as nat),
        decreases width - col,
    {
        append_decimal(&mut s, col);
        proof {
            reveal_strlit(" ");
        }
        s.append(" ");
        assert(columns_text((col + 1) as nat) == columns_text(col as nat) + decimal(col as nat) + seq![' ']);
        assert(s@ =~= seq![' ', ' '] + columns_text((col + 1) as nat));
        col = col + 1;
    }
    s.append("\n\n");
    let ghost header = s@;
    assert(m@.subrange(0, 0) =~= Seq::<Vec<CellContent<C, F>>>::empty());
    let mut r: usize = 0;
    while r < m.len()
        invariant
            r <= m@.len(),
            header == seq![' ', ' '] + columns_text(width_of(m@) as nat) + seq!['\n', '\n'],
            s@ == header + rows_text(m@.subrange(0, r as int)),
        decreases m@.len() - r,
    {
        let ghost before = s@;
        let row = &m[r];
        proof {
            reveal_strlit(" ");
            reveal_strlit("\n\n");
        }
        append_decimal(&mut s, r);
        s.append(" ");
        let mut c: usize = 0;
        assert(row@.subrange(0, 0) =~= Seq::<CellContent<C, F>>::empty());
        assert(cells_text(row@.subrange(0, 0)) =~= Seq::<char>::empty());
        assert(s@ =~= before + decimal(r as nat) + seq![' '] + cells_text(row@.subrange(0, 0)));
        while c < row.len()
            invariant
                c <= row@.len(),
                s@ == before + decimal(r as nat) + seq![' '] + cells_text(row@.subrange(0, c as int)),
            decreases row@.len() - c,
        {
            s.append(cell_text(&row[c]));
            assert(row@.subrange(0, c as int + 1).drop_last() =~= row@.subrange(0, c as int));
            let ghost next = row@.subrange(0, c as int + 1);
            assert(next.last() == row@[c as int]);
            assert(cells_text(next) == cells_text(row@.subrange(0, c as int)) + seq![cell_code(row@[c as int]), ' ']);
            assert(s@ =~= before + decimal(r as nat) + seq![' '] + cells_text(next));
            c = c + 1;
        }
        s.append("\n\n");
        assert(row@.subrange(0, row@.len() as int) =~= row@);
        assert(m@.subrange(0, r as int + 1).drop_last() =~= m@.subrange(0, r as int));
        let ghost upto = m@.subrange(0, r as int + 1);
        assert(upto.last() == m@[r as int]);
        assert(rows_text(upto) == rows_text(m@.subrange(0, r as int)) + row_line(r as nat, m@[r as int]@));
        assert(s@ =~= header + rows_text(upto));
        r = r + 1;
    }
    assert(m@.subrange(0, m@.len() as int) =~= m@);
    s
}

} // verus!

//! Serialization of a square grid of QR modules into a minimal SVG document:
//! XML declaration, doctype, a `viewBox` sized to the grid plus a border of
//! quiet-zone modules on each side, a white background rectangle, and one
//! black unit-square subpath per dark module.

use vstd::prelude::*;

use crate::chars::{dec_of, small_dec};
use vstd::string::StringExecFns;

verus! {

/// A square grid of QR modules (`true` = dark), stored row-major.
pub struct QrModuleMatrix {
    pub side: usize,
    pub modules: Vec<bool>,
}

/// The row-major flat sequence `flat`, read as a `side` by `side` grid of
/// rows.
pub open spec fn grid_of(side: int, flat: Seq<bool>) -> Seq<Seq<bool>> {
    Seq::new(side as nat, |y: int| Seq::new(side as nat, |x: int| flat[y * side + x]))
}

impl QrModuleMatrix {
    /// The grid is square and no larger than the largest QR symbol.
    pub open spec fn wf(&self) -> bool {
        self.side <= 177 && self.modules@.len() == self.side * self.side
    }

    /// Builds a matrix from a side length and a row-major module vector;
    /// rejects a vector whose length is not the square of the side, and a
    /// side larger than any QR symbol has.
    pub fn new(side: usize, modules: Vec<bool>) -> (r: Option<QrModuleMatrix>)
        ensures
            r is Some <==> (side <= 177 && modules@.len() == side * side),
            r is Some ==> r->0.wf() && r->0@ == grid_of(side as int, modules@),
    {
        if side <= 177 {
            proof {
                assert(side * side <= 31329) by (nonlinear_arith)
                    requires side <= 177;
            }
            if modules.len() == side * side {
                return Some(QrModuleMatrix { side, modules });
            }
        }
        None
    }

}

impl View for QrModuleMatrix {
    type V = Seq<Seq<bool>>;

    open spec fn view(&self) -> Seq<Seq<bool>> {
        grid_of(self.side as int, self.modules@)
    }
}

/// The XML declaration that opens every rendered document.
pub open spec fn xml_decl() -> Seq<char> {
    "<?xml version=\"1.0\" encoding=\"UTF-8\"?>\n"@
}

/// The XML declaration and doctype that open every rendered document.
pub open spec fn svg_prefix() -> Seq<char> {
    xml_decl()
        + "<!DOCTYPE svg PUBLIC \"-//W3C//DTD SVG 1.1//EN\" \"http://www.w3.org/Graphics/SVG/1.1/DTD/svg11.dtd\">\n"@
}

/// The opening `<svg>` element, whose square `viewBox` spans `dim` modules.
pub open spec fn svg_open_tag(dim: nat) -> Seq<char> {
    "<svg xmlns=\"http://www.w3.org/2000/svg\" version=\"1.1\" viewBox=\"0 0 "@ + dec_of(dim)
        + " "@ + dec_of(dim) + "\" stroke=\"none\">\n"@
}

/// The white full-area background rectangle.
pub open spec fn svg_rect() -> Seq<char> {
    "\t<rect width=\"100%\" height=\"100%\" fill=\"#FFFFFF\"/>\n"@
}

/// The opening of the single path element.
pub open spec fn svg_path_open() -> Seq<char> {
    "\t<path d=\""@
}

/// The close of the path element and of the document.
pub open spec fn svg_suffix() -> Seq<char> {
    "\" fill=\"#000000\"/>\n"@ + "</svg>\n"@
}

/// The unit-square subpath for the dark module at grid coordinate `(x, y)`,
/// shifted by the border width.
pub open spec fn subpath(x: int, y: int, b: int) -> Seq<char> {
    "M"@ + dec_of((x + b) as nat) + ","@ + dec_of((y + b) as nat) + "h1v1h-1z"@
}

/// The subpaths of the given cells in order, separated by single spaces; the
/// first has no leading space.
pub open spec fn join_subpaths(cells: Seq<(int, int)>, b: int) -> Seq<char>
    decreases cells.len(),
{
    if cells.len() == 0 {
        Seq::empty()
    } else if cells.len() == 1 {
        subpath(cells[0].0, cells[0].1, b)
    } else {
        join_subpaths(cells.drop_last(), b) + " "@ + subpath(cells.last().0, cells.last().1, b)
    }
}

/// The `(x, y)` coordinates of the dark modules among the first `k` cells of
/// the row-major scan of the grid.
pub open spec fn dark_cells_upto(m: Seq<Seq<bool>>, k: int) -> Seq<(int, int)>
    decreases k,
{
    if k <= 0 {
        Seq::empty()
    } else {
        let j = k - 1;
        let side = m.len() as int;
        let y = j / side;
        let x = j % side;
        dark_cells_upto(m, j) + (if m[y][x] {
            seq![(x, y)]
        } else {
            Seq::empty()
        })
    }
}

/// The `(x, y)` coordinates of all dark modules, in row-major scan order.
pub open spec fn dark_cells(m: Seq<Seq<bool>>) -> Seq<(int, int)> {
    dark_cells_upto(m, m.len() * m.len() as int)
}

/// The full `d` attribute of the path: one subpath per dark module, in
/// row-major scan order, space-separated.
pub open spec fn path_data(m: Seq<Seq<bool>>, b: int) -> Seq<char> {
    join_subpaths(dark_cells(m), b)
}

/// The complete SVG document for the grid `m` with border width `b`.
pub open spec fn svg_spec(m: Seq<Seq<bool>>, b: int) -> Seq<char> {
    svg_prefix() + svg_open_tag((m.len() + 2 * b) as nat) + svg_rect() + svg_path_open()
        + path_data(m, b) + svg_suffix()
}

/// Every rendered document, whatever its grid and border, starts with the
/// XML declaration.
pub proof fn lemma_svg_starts_with_xml_decl(m: Seq<Seq<bool>>, b: int)
    ensures
        svg_spec(m, b).len() >= xml_decl().len(),
        svg_spec(m, b).subrange(0, xml_decl().len() as int) == xml_decl(),
{
    assert(svg_spec(m, b).subrange(0, xml_decl().len() as int) =~= xml_decl());
}

/// The number of occurrences of a character in a string.
pub open spec fn count_char(s: Seq<char>, c: char) -> int
    decreases s.len(),
{
    if s.len() == 0 {
        0
    } else {
        count_char(s.drop_last(), c) + (if s.last() == c {
            1int
        } else {
            0int
        })
    }
}

/// Counting distributes over concatenation.
proof fn lemma_count_char_concat(a: Seq<char>, b: Seq<char>, c: char)
    ensures
        count_char(a + b, c) == count_char(a, c) + count_char(b, c),
    decreases b.len(),
{
    if b.len() == 0 {
        assert(a + b =~= a);
    } else {
        assert((a + b).drop_last() =~= a + b.drop_last());
        assert((a + b).last() == b.last());
        lemma_count_char_concat(a, b.drop_last(), c);
    }
}

/// A string without the character counts zero of it.
proof fn lemma_count_char_absent(s: Seq<char>, c: char)
    requires
        forall|i: int| 0 <= i < s.len() ==> s[i] != c,
    ensures
        count_char(s, c) == 0,
    decreases s.len(),
{
    if s.len() > 0 {
        lemma_count_char_absent(s.drop_last(), c);
    }
}

/// A decimal rendering never contains the letter `M`.
proof fn lemma_dec_of_no_m(n: nat)
    ensures
        count_char(dec_of(n), 'M') == 0,
{
    crate::chars::lemma_dec_of_digits(n);
    lemma_count_char_absent(dec_of(n), 'M');
}

/// Each unit-square subpath contains exactly one `M`, its leading move
/// command.
proof fn lemma_subpath_one_m(x: int, y: int, b: int)
    ensures
        count_char(subpath(x, y, b), 'M') == 1,
{
    reveal_strlit("M");
    reveal_strlit(",");
    reveal_strlit("h1v1h-1z");
    let dx = dec_of((x + b) as nat);
    let dy = dec_of((y + b) as nat);
    lemma_dec_of_no_m((x + b) as nat);
    lemma_dec_of_no_m((y + b) as nat);
    lemma_count_char_absent(","@, 'M');
    lemma_count_char_absent("h1v1h-1z"@, 'M');
    lemma_count_char_absent("M"@.drop_last(), 'M');
    assert(count_char("M"@, 'M') == 1) by {
        assert("M"@.last() == 'M');
        assert(count_char("M"@.drop_last(), 'M') == 0);
    }
    lemma_count_char_concat("M"@, dx, 'M');
    lemma_count_char_concat("M"@ + dx, ","@, 'M');
    lemma_count_char_concat("M"@ + dx + ","@, dy, 'M');
    lemma_count_char_concat("M"@ + dx + ","@ + dy, "h1v1h-1z"@, 'M');
}

/// A joined subpath list contains exactly one `M` per cell.
proof fn lemma_join_count(cells: Seq<(int, int)>, b: int)
    ensures
        count_char(join_subpaths(cells, b), 'M') == cells.len(),
    decreases cells.len(),
{
    if cells.len() == 0 {
    } else if cells.len() == 1 {
        lemma_subpath_one_m(cells[0].0, cells[0].1, b);
    } else {
        let front = cells.drop_last();
        let c = cells.last();
        lemma_join_count(front, b);
        lemma_subpath_one_m(c.0, c.1, b);
        reveal_strlit(" ");
        lemma_count_char_absent(" "@, 'M');
        lemma_count_char_concat(join_subpaths(front, b), " "@, 'M');
        lemma_count_char_concat(join_subpaths(front, b) + " "@, subpath(c.0, c.1, b), 'M');
    }
}

/// The path's `d` attribute emits exactly as many unit-square subpaths (each
/// opened by its one `M` move command) as the grid has dark modules, which
/// `dark_cells` lists in row-major order.
pub proof fn lemma_subpath_count(m: Seq<Seq<bool>>, b: int)
    ensures
        count_char(path_data(m, b), 'M') == dark_cells(m).len(),
{
    lemma_join_count(dark_cells(m), b);
}

/// Appending one cell to a joined subpath list appends a space (when
/// anything was emitted before) and the cell's subpath.
proof fn lemma_join_snoc(cells: Seq<(int, int)>, c: (int, int), b: int)
    ensures
        join_subpaths(cells.push(c), b) == join_subpaths(cells, b) + (if cells.len() > 0 {
            " "@
        } else {
            Seq::<char>::empty()
        }) + subpath(c.0, c.1, b),
{
    let all = cells.push(c);
    if cells.len() == 0 {
        assert(all.len() == 1);
        assert(all[0] == c);
        assert(join_subpaths(all, b) == subpath(c.0, c.1, b));
        assert(Seq::empty() + Seq::<char>::empty() + subpath(c.0, c.1, b) =~= subpath(
            c.0,
            c.1,
            b,
        ));
    } else {
        assert(all.drop_last() =~= cells);
        assert(all.last() == c);
    }
}

/// One row-major scan step: cell `k = y * side + x` of the grid is `(x, y)`.
proof fn lemma_dark_cells_step(m: Seq<Seq<bool>>, x: int, y: int)
    requires
        0 <= x < m.len(),
        0 <= y < m.len(),
    ensures
        dark_cells_upto(m, y * m.len() + x + 1) == dark_cells_upto(m, y * m.len() + x) + (if m[y][x] {
            seq![(x, y)]
        } else {
            Seq::<(int, int)>::empty()
        }),
{
    let side = m.len() as int;
    let j = y * side + x;
    assert(j / side == y && j % side == x) by (nonlinear_arith)
        requires 0 <= x < side && 0 <= y && j == y * side + x;
    assert(j + 1 > 0);
}

/// Serializes the module grid into the SVG document text. The border is the
/// quiet-zone width in modules on each side; the bound on the dimension keeps
/// every emitted coordinate below one thousand.
pub fn to_svg_string(qr: &QrModuleMatrix, border: i32) -> (r: String)
    requires
        qr.wf(),
        0 <= border,
        qr.side + 2 * border <= 999,
    ensures
        r@ == svg_spec(qr@, border as int),
{
    let ghost m = qr@;
    let b = border as usize;
    let side = qr.side;
    let dim = side + 2 * b;
    let mut r = String::new();
    r.append("<?xml version=\"1.0\" encoding=\"UTF-8\"?>\n");
    r.append(
        "<!DOCTYPE svg PUBLIC \"-//W3C//DTD SVG 1.1//EN\" \"http://www.w3.org/Graphics/SVG/1.1/DTD/svg11.dtd\">\n",
    );
    proof {
        assert(r@ =~= svg_prefix());
    }
    r.append("<svg xmlns=\"http://www.w3.org/2000/svg\" version=\"1.1\" viewBox=\"0 0 ");
    let dims = small_dec(dim);
    r.append(dims.as_str());
    r.append(" ");
    r.append(dims.as_str());
    r.append("\" stroke=\"none\">\n");
    r.append("\t<rect width=\"100%\" height=\"100%\" fill=\"#FFFFFF\"/>\n");
    r.append("\t<path d=\"");
    let ghost head = svg_prefix() + svg_open_tag((m.len() + 2 * (border as int)) as nat)
        + svg_rect() + svg_path_open();
    proof {
        assert(r@ =~= head);
    }
    let mut any = false;
    let mut y: usize = 0;
    while y < side
        invariant
            qr.wf(),
            side == qr.side,
            m == qr@,
            m.len() == side,
            0 <= border,
            side + 2 * border <= 999,
            b == border as int,
            y <= side,
            r@ == head + join_subpaths(dark_cells_upto(m, y * side), border as int),
            any <==> dark_cells_upto(m, y * side).len() > 0,
        decreases side - y,
    {
        let mut x: usize = 0;
        while x < side
            invariant
                qr.wf(),
                side == qr.side,
                m == qr@,
                m.len() == side,
                0 <= border,
                side + 2 * border <= 999,
                b == border as int,
                y < side,
                x <= side,
                r@ == head + join_subpaths(dark_cells_upto(m, y * side + x), border as int),
                any <==> dark_cells_upto(m, y * side + x).len() > 0,
            decreases side - x,
        {
            proof {
                assert(y * side + x < side * side && side * side <= 31329 && y * side + side == (y
                    + 1) * side) by (nonlinear_arith)
                    requires 0 <= x < side && 0 <= y < side && side <= 177;
            }
            let idx = y * side + x;
            let ghost cells = dark_cells_upto(m, y * side + x);
            proof {
                lemma_dark_cells_step(m, x as int, y as int);
            }
            if qr.modules[idx] {
                proof {
                    assert(m[y as int][x as int] == qr.modules@[y * side + x]);
                }
                if any {
                    r.append(" ");
                }
                r.append("M");
                let xs = small_dec(x + b);
                r.append(xs.as_str());
                r.append(",");
                let ys = small_dec(y + b);
                r.append(ys.as_str());
                r.append("h1v1h-1z");
                any = true;
                proof {
                    let c = (x as int, y as int);
                    lemma_join_snoc(cells, c, border as int);
                    assert(cells.push(c) =~= cells + seq![c]);
                    assert(dark_cells_upto(m, y * side + x + 1) == cells.push(c));
                    assert(r@ =~= head + join_subpaths(
                        dark_cells_upto(m, y * side + x + 1),
                        border as int,
                    ));
                }
            } else {
                proof {
                    assert(m[y as int][x as int] == qr.modules@[y * side + x]);
                    assert(dark_cells_upto(m, y * side + x + 1) =~= cells);
                }
            }
            x = x + 1;
        }
        proof {
            assert(y * side + side == (y + 1) * side) by (nonlinear_arith);
        }
        y = y + 1;
    }
    proof {
        assert(side * side == m.len() * m.len()) by (nonlinear_arith)
            requires side == m.len();
    }
    r.append("\" fill=\"#000000\"/>\n");
    r.append("</svg>\n");
    proof {
        assert(r@ =~= svg_spec(m, border as int));
    }
    r
}

} // verus!

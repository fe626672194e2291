//! The QR encoding capability: a text payload is handed to the outside
//! encoder, and the module grid it produces is read back into the library's
//! own matrix type, from which the SVG document is built by verified code.

use vstd::prelude::*;

use crate::svg::{grid_of, svg_spec, to_svg_string, QrModuleMatrix};
use qrcodegen::{QrCode, QrCodeEcc};

verus! {

#[verifier::external_type_specification]
#[verifier::external_body]
pub struct ExQrCode(QrCode);

/// The module grid of an encoded QR symbol: row `y`, column `x`, `true` for
/// a dark module.
pub uninterp spec fn qr_modules(qr: QrCode) -> Seq<Seq<bool>>;

/// Whether a text fits some QR version at error-correction level Medium:
/// the encoder succeeds on exactly these payloads, and it is deterministic,
/// so this is a function of the text alone.
pub uninterp spec fn qr_fits_medium(s: Seq<char>) -> bool;

/// The module grid the encoder produces for a text at error-correction
/// level Medium; the encoder is deterministic, so the grid is a function of
/// the text alone.
pub uninterp spec fn qr_grid_medium(s: Seq<char>) -> Seq<Seq<bool>>;

/// Relies on `qrcodegen::QrCode::encode_text`: encodes the text as a QR
/// symbol at the given level, choosing the smallest version that fits, and
/// fails exactly when the text fits no version at that level. Encoding is
/// deterministic, a function of the text alone. A produced symbol's grid is
/// square with an odd side length between 21 and 177 (QR versions 1 to 40).
/// The error branch renders the encoder's message.
#[verifier::external_body]
fn qr_encode_medium(text: &str) -> (r: Result<QrCode, String>)
    ensures
        r is Ok <==> qr_fits_medium(text@),
        r is Ok ==> qr_modules(r->Ok_0) == qr_grid_medium(text@),
        r is Ok ==> {
            let m = qr_grid_medium(text@);
            &&& 21 <= m.len() <= 177
            &&& m.len() % 2 == 1
            &&& forall|y: int| 0 <= y < m.len() ==> (#[trigger] m[y]).len() == m.len()
        },
{
    match QrCode::encode_text(text, QrCodeEcc::Medium) {
        Ok(qr) => Ok(qr),
        Err(e) => Err(format!("{}", e)),
    }
}

/// Relies on `qrcodegen::QrCode::size`: the side length of the symbol's
/// module grid.
#[verifier::external_body]
fn qr_size(qr: &QrCode) -> (r: i32)
    ensures
        r == qr_modules(*qr).len(),
{
    qr.size()
}

/// Relies on `qrcodegen::QrCode::get_module`: the module at column `x`, row
/// `y`, `true` for dark; out-of-bounds coordinates read as light.
#[verifier::external_body]
fn qr_get_module(qr: &QrCode, x: i32, y: i32) -> (r: bool)
    ensures
        r <==> (0 <= x < qr_modules(*qr).len() && 0 <= y < qr_modules(*qr).len() && qr_modules(
            *qr,
        )[y as int][x as int]),
{
    qr.get_module(x, y)
}

/// Reads the module grid of an encoded symbol into the library's matrix
/// type, row-major.
fn matrix_of_qr(qr: &QrCode) -> (r: QrModuleMatrix)
    requires
        21 <= qr_modules(*qr).len() <= 177,
        forall|y: int|
            0 <= y < qr_modules(*qr).len() ==> (#[trigger] qr_modules(*qr)[y]).len()
                == qr_modules(*qr).len(),
    ensures
        r.wf(),
        r@ == qr_modules(*qr),
{
    let ghost mm = qr_modules(*qr);
    let side_i = qr_size(qr);
    let side = side_i as usize;
    let mut modules: Vec<bool> = Vec::new();
    let mut y: usize = 0;
    while y < side
        invariant
            side == mm.len(),
            21 <= side <= 177,
            mm == qr_modules(*qr),
            forall|yy: int| 0 <= yy < side ==> (#[trigger] mm[yy]).len() == side,
            y <= side,
            modules@.len() == y * side,
            forall|j: int|
                0 <= j < y * side ==> #[trigger] modules@[j] == mm[j / (side as int)][j % (
                side as int)],
        decreases side - y,
    {
        let mut x: usize = 0;
        while x < side
            invariant
                side == mm.len(),
                21 <= side <= 177,
                mm == qr_modules(*qr),
                forall|yy: int| 0 <= yy < side ==> (#[trigger] mm[yy]).len() == side,
                y < side,
                x <= side,
                modules@.len() == y * side + x,
                forall|j: int|
                    0 <= j < y * side + x ==> #[trigger] modules@[j] == mm[j / (side as int)][j % (
                    side as int)],
            decreases side - x,
        {
            proof {
                assert(y * side + x < side * side && side * side <= 31329 && (y * side + x) / (
                side as int) == y && (y * side + x) % (side as int) == x) by (nonlinear_arith)
                    requires 0 <= x < side && 0 <= y < side && side <= 177;
            }
            let d = qr_get_module(qr, x as i32, y as i32);
            modules.push(d);
            x = x + 1;
        }
        proof {
            assert(y * side + side == (y + 1) * side) by (nonlinear_arith);
        }
        y = y + 1;
    }
    proof {
        assert(side * side == y * side) by (nonlinear_arith)
            requires y == side;
    }
    let r = QrModuleMatrix { side, modules };
    proof {
        assert forall|yy: int| 0 <= yy < side implies r@[yy] =~= mm[yy] by {
            assert forall|xx: int| 0 <= xx < side implies grid_of(side as int, modules@)[yy][xx]
                == mm[yy][xx] by {
                assert((yy * side + xx) / (side as int) == yy && (yy * side + xx) % (side as int)
                    == xx && 0 <= yy * side + xx < side * side) by (nonlinear_arith)
                    requires 0 <= xx < side && 0 <= yy < side;
            }
        }
        assert(r@ =~~= mm);
    }
    r
}

/// Encodes the payload as a QR symbol at error-correction level Medium and
/// serializes it into an SVG document with a four-module quiet zone. The
/// call succeeds exactly when the payload fits some QR version at level
/// Medium; on failure the encoder's message is returned. The document is the
/// exact SVG rendering of the module grid the encoder produces for the
/// payload — a square grid of odd side length between 21 and 177.
pub fn to_svg_document(text: &str) -> (r: Result<String, String>)
    ensures
        r is Ok <==> qr_fits_medium(text@),
        r is Ok ==> {
            let m = qr_grid_medium(text@);
            &&& 21 <= m.len() <= 177
            &&& m.len() % 2 == 1
            &&& r->Ok_0@ == svg_spec(m, 4)
        },
{
    let qr = match qr_encode_medium(text) {
        Ok(q) => q,
        Err(e) => return Err(e),
    };
    let mat = matrix_of_qr(&qr);
    let s = to_svg_string(&mat, 4);
    Ok(s)
}

} // verus!

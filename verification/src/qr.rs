//! Terminal QR rendering for identity sharing.
//!
//! Half-block characters put two module rows into one text row, and a light border of two modules
//! surrounds the symbol.

use vstd::prelude::*;
use vstd::utf8::*;

use crate::error::{outcome, Error, ErrorView, Result};
use crate::text::{trim, trimmed};

verus! {

/// Width, in modules, of the quiet zone on every side.
pub const QUIET: usize = 2;

/// Both halves dark.
pub const FULL: char = '\u{2588}';

/// Top dark, bottom light.
pub const UPPER: char = '\u{2580}';

/// Top light, bottom dark.
pub const LOWER: char = '\u{2584}';

/// Both halves light.
pub const EMPTY: char = ' ';

/// The QR symbol of a byte string at medium error correction: its width in modules, and its modules
/// row by row, `true` for dark. Or the reason why there is none.
pub uninterp spec fn qr_symbol(data: Seq<u8>) -> core::result::Result<(nat, Seq<bool>), Seq<char>>;

/// A symbol, or the reason why there is none, by its view.
pub open spec fn symbol_view(r: core::result::Result<(usize, Vec<bool>), String>) -> core::result::Result<
    (nat, Seq<bool>),
    Seq<char>,
> {
    match r {
        Ok(v) => Ok((v.0 as nat, v.1@)),
        Err(e) => Err(e@),
    }
}

/// The longest byte string of which every one is sure to be encoded.
pub const SHORT_DATA: usize = 213;

/// The longest byte string that fits the largest symbol: so many digits.
pub const LONGEST_DATA: usize = 5596;

/// The lengths of the byte strings on which the encoder is sure to return. The symbols of those in
/// between can be so large that the encoder's scores for their masks overflow 16 bits. Up to
/// [`SHORT_DATA`] bytes, no symbol is wider than 69 modules, and no score exceeds 57,000. Beyond
/// [`LONGEST_DATA`] there is no symbol, provided that the bits to encode, 28 for a byte at most, can
/// be counted.
pub open spec fn encoder_returns(len: nat) -> bool {
    len <= SHORT_DATA || (LONGEST_DATA < len && 28 * len <= usize::MAX)
}

/// What the length of a byte string says of its symbol: a short one has a symbol, and one beyond the
/// longest has none.
pub open spec fn decided_by_length(symbol: core::result::Result<(nat, Seq<bool>), Seq<char>>, len: nat) -> bool {
    &&& len <= SHORT_DATA ==> symbol is Ok
    &&& len > LONGEST_DATA ==> (symbol matches Err(e) && e == "data too long"@)
}

/// `qrcode::QrCode::with_error_correction_level` at level M, with `width` and `into_colors`: a square
/// symbol of 21 to 177 modules a side, or the text of the error. What is short has a symbol, and what
/// is longer than the longest has none. Lengths at which the call can panic are left out.
#[verifier::external_body]
fn qr_encode(data: &[u8]) -> (r: core::result::Result<(usize, Vec<bool>), String>)
    requires
        encoder_returns(data@.len()),
    ensures
        symbol_view(r) == qr_symbol(data@),
        r matches Ok(v) ==> 21 <= v.0 <= 177 && v.1@.len() == v.0 * v.0,
        decided_by_length(symbol_view(r), data@.len()),
{
    match qrcode::QrCode::with_error_correction_level(data, qrcode::EcLevel::M) {
        Ok(code) => {
            let width = code.width();
            let dark = code.into_colors().into_iter().map(|c| c == qrcode::Color::Dark).collect();
            Ok((width, dark))
        },
        Err(e) => Err(e.to_string()),
    }
}

/// Whether the module at a position of the bordered grid is dark. The border is light.
pub open spec fn is_dark(width: nat, modules: Seq<bool>, row: int, col: int) -> bool {
    &&& 2 <= row < width + 2
    &&& 2 <= col < width + 2
    &&& modules[(row - 2) * width + (col - 2)]
}

/// The character for two modules, one above the other.
pub open spec fn glyph(top: bool, bottom: bool) -> char {
    if top && bottom {
        FULL
    } else if top {
        UPPER
    } else if bottom {
        LOWER
    } else {
        EMPTY
    }
}

/// The side of the bordered grid.
pub open spec fn padded(width: nat) -> nat {
    width + 4
}

/// The character in text row `k`, column `col`: module rows `2k` and `2k + 1`. A row below the grid
/// is light.
pub open spec fn cell(width: nat, modules: Seq<bool>, k: int, col: int) -> char {
    glyph(
        is_dark(width, modules, 2 * k, col),
        2 * k + 1 < padded(width) && is_dark(width, modules, 2 * k + 1, col),
    )
}

/// Text row `k`, with its line ending.
pub open spec fn text_row(width: nat, modules: Seq<bool>, k: int) -> Seq<char> {
    Seq::new(padded(width), |col: int| cell(width, modules, k, col)).push('\n')
}

/// The first `k` text rows.
pub open spec fn text_rows(width: nat, modules: Seq<bool>, k: nat) -> Seq<char>
    decreases k,
{
    if k == 0 {
        Seq::empty()
    } else {
        text_rows(width, modules, (k - 1) as nat) + text_row(width, modules, k - 1)
    }
}

/// The number of text rows.
pub open spec fn row_count(width: nat) -> nat {
    (padded(width) + 1) / 2
}

/// The whole picture.
pub open spec fn picture(width: nat, modules: Seq<bool>) -> Seq<char> {
    text_rows(width, modules, row_count(width))
}

/// The picture is `row_count` lines of the bordered width: line `k`, column `col` stands at a fixed
/// place, and a line ending stands behind each line.
pub proof fn law_picture_is_a_grid(width: nat, modules: Seq<bool>, k: int, col: int)
    requires
        0 <= k < row_count(width),
        0 <= col <= padded(width),
    ensures
        picture(width, modules).len() == row_count(width) * (padded(width) + 1),
        picture(width, modules)[k * (padded(width) + 1) + col] == (if col == padded(width) {
            '\n'
        } else {
            cell(width, modules, k, col)
        }),
{
    lemma_rows(width, modules, row_count(width), k, col);
}

proof fn lemma_rows_len(width: nat, modules: Seq<bool>, n: nat)
    ensures
        text_rows(width, modules, n).len() == n * (padded(width) + 1),
    decreases n,
{
    if n > 0 {
        lemma_rows_len(width, modules, (n - 1) as nat);
        assert(n * (padded(width) + 1) == (n - 1) * (padded(width) + 1) + (padded(width) + 1)) by (nonlinear_arith);
    } else {
        assert(0 * (padded(width) + 1) == 0) by (nonlinear_arith);
    }
}

proof fn lemma_rows(width: nat, modules: Seq<bool>, n: nat, k: int, col: int)
    requires
        0 <= k < n,
        0 <= col <= padded(width),
    ensures
        text_rows(width, modules, n).len() == n * (padded(width) + 1),
        0 <= k * (padded(width) + 1) + col < n * (padded(width) + 1),
        text_rows(width, modules, n)[k * (padded(width) + 1) + col] == text_row(width, modules, k)[col],
    decreases n,
{
    let side = padded(width) + 1;
    let m = (n - 1) as nat;
    lemma_rows_len(width, modules, n);
    lemma_rows_len(width, modules, m);
    assert(n * side == m * side + side) by (nonlinear_arith)
        requires
            n == m + 1,
    ;
    assert(0 <= k * side) by (nonlinear_arith)
        requires
            0 <= k,
            side >= 0,
    ;
    if k < m {
        lemma_rows(width, modules, m, k, col);
    } else {
        assert(k * side == m * side);
    }
}

/// Every module of the symbol is where it belongs: two rows and two columns from the edge, dark where it
/// is dark and light where it is light. Of two rows that share a line of text the upper one fills the
/// upper half of the character, and the lower one the lower half.
pub proof fn law_every_module_is_drawn(width: nat, modules: Seq<bool>, row: int, col: int)
    requires
        0 <= row < width,
        0 <= col < width,
    ensures
        ({
            let at = ((row + 2) / 2) * (width + 5) + (col + 2);
            let c = picture(width, modules)[at];
            let dark = modules[row * width + col];
            &&& 0 <= at < picture(width, modules).len()
            &&& c == '\u{2588}' || c == '\u{2580}' || c == '\u{2584}' || c == ' '
            &&& row % 2 == 0 ==> (dark <==> c == '\u{2588}' || c == '\u{2580}')
            &&& row % 2 == 1 ==> (dark <==> c == '\u{2588}' || c == '\u{2584}')
        }),
{
    let k = (row + 2) / 2;
    assert(row + 2 < padded(width));
    law_picture_is_a_grid(width, modules, k, col + 2);
    lemma_rows(width, modules, row_count(width), k, col + 2);
    if row % 2 == 0 {
        assert(2 * k == row + 2);
    } else {
        assert(2 * k + 1 == row + 2);
    }
}

/// The picture has half as many lines as the bordered symbol has rows, rounded up, each as wide as that
/// symbol with a line ending behind it. Every character outside the symbol is a space.
pub proof fn law_border_is_light(width: nat, modules: Seq<bool>, k: int, col: int)
    requires
        0 <= k < (width + 5) / 2,
        0 <= col <= width + 4,
    ensures
        picture(width, modules).len() == (width + 5) / 2 * (width + 5),
        col == width + 4 ==> picture(width, modules)[k * (width + 5) + col] == '\n',
        col < width + 4 && (k == 0 || col < 2 || col >= width + 2) ==> picture(width, modules)[k * (width + 5) + col]
            == ' ',
        col < width + 4 && 2 * k >= width + 2 ==> picture(width, modules)[k * (width + 5) + col] == ' ',
{
    law_picture_is_a_grid(width, modules, k, col);
}

/// What rendering makes of a symbol: a blank identity is refused, an encoder's refusal is passed on, and
/// else the symbol is drawn.
pub proof fn law_rendering(onion: Seq<char>, symbol: core::result::Result<(nat, Seq<bool>), Seq<char>>)
    ensures
        trimmed(onion).len() == 0 ==> rendered(onion, symbol) == Err::<Seq<char>, ErrorView>(
            ErrorView::Qr("cannot encode an empty identity"@),
        ),
        trimmed(onion).len() > 0 ==> {
            &&& symbol matches Ok((width, modules)) ==> rendered(onion, symbol) == Ok::<Seq<char>, ErrorView>(
                picture(width, modules),
            )
            &&& symbol matches Err(e) ==> rendered(onion, symbol) == Err::<Seq<char>, ErrorView>(ErrorView::Qr(e))
        },
{
}

/// The quiet zone: the first text row is blank, and so are the two leftmost and the two rightmost
/// columns of every row.
pub proof fn law_quiet_zone(width: nat, modules: Seq<bool>, k: int, col: int)
    requires
        0 <= k < row_count(width),
        0 <= col < padded(width),
        k == 0 || col < 2 || col >= width + 2,
    ensures
        cell(width, modules, k, col) == EMPTY,
{
}

/// Render the modules of a square symbol: one line of text for every two rows, border included.
pub fn render_modules(width: usize, modules: &Vec<bool>) -> (out: String)
    requires
        modules@.len() == width * width,
        width + 5 <= usize::MAX,
    ensures
        out@ == picture(width as nat, modules@),
{
    let side: usize = width + 4;
    let mut out = String::new();
    let mut row: usize = 0;
    let ghost mut k: int = 0;
    while row < side
        invariant
            modules@.len() == width * width,
            side == width + 4,
            side < usize::MAX,
            0 <= k <= row_count(width as nat),
            row == 2 * k,
            row <= side + 1,
            out@ == text_rows(width as nat, modules@, k as nat),
        decreases side + 1 - row,
    {
        let ghost above = out@;
        let mut col: usize = 0;
        assert(above + Seq::new(0, |c: int| cell(width as nat, modules@, k, c)) =~= above);
        while col < side
            invariant
                modules@.len() == width * width,
                side == width + 4,
                side < usize::MAX,
                row < side,
                row == 2 * k,
                col <= side,
                out@ == above + Seq::new(col as nat, |c: int| cell(width as nat, modules@, k, c)),
            decreases side - col,
        {
            let top = dark_at(width, modules, row, col);
            let bottom = if row + 1 < side {
                dark_at(width, modules, row + 1, col)
            } else {
                false
            };
            let c = if top && bottom {
                FULL
            } else if top {
                UPPER
            } else if bottom {
                LOWER
            } else {
                EMPTY
            };
            assert(c == cell(width as nat, modules@, k, col as int));
            out.push(c);
            col = col + 1;
            assert(out@ =~= above + Seq::new(col as nat, |c: int| cell(width as nat, modules@, k, c)));
        }
        out.push('\n');
        assert(out@ =~= above + text_row(width as nat, modules@, k));
        row = row + 2;
        proof {
            k = k + 1;
        }
    }
    out
}

fn dark_at(width: usize, modules: &Vec<bool>, row: usize, col: usize) -> (r: bool)
    requires
        modules@.len() == width * width,
        width + 5 <= usize::MAX,
        row <= width + 4,
        col <= width + 4,
    ensures
        r == is_dark(width as nat, modules@, row as int, col as int),
{
    if row < QUIET || col < QUIET || row >= width + QUIET || col >= width + QUIET {
        return false;
    }
    let r: usize = row - QUIET;
    let c: usize = col - QUIET;
    proof {
        assert(r * width + c < width * width) by (nonlinear_arith)
            requires
                r < width,
                c < width,
        ;
        assert(0 <= r * width) by (nonlinear_arith);
        assert(modules.len() == width * width);
    }
    modules[r * width + c]
}

/// What rendering an identity yields, given its QR symbol.
pub open spec fn rendered(
    onion: Seq<char>,
    symbol: core::result::Result<(nat, Seq<bool>), Seq<char>>,
) -> core::result::Result<Seq<char>, ErrorView> {
    if trimmed(onion).len() == 0 {
        Err(ErrorView::Qr("cannot encode an empty identity"@))
    } else {
        match symbol {
            Ok((width, modules)) => Ok(picture(width, modules)),
            Err(e) => Err(ErrorView::Qr(e)),
        }
    }
}

/// Whether an identity can be rendered, or refused for certain: it is blank, or the encoder returns.
pub open spec fn is_answered(onion: Seq<char>) -> bool {
    trimmed(onion).len() == 0 || encoder_returns(encode_utf8(onion).len())
}

/// An identity can be rendered, or refused for certain, if it is blank, has at most 213 bytes, or has more
/// than the 5596 that any symbol holds.
pub proof fn law_what_can_be_rendered(onion: Seq<char>)
    ensures
        is_answered(onion) <==> {
            let n = encode_utf8(onion).len();
            trimmed(onion).len() == 0 || n <= 213 || (n > 5596 && 28 * n <= usize::MAX)
        },
{
}

/// Whether [`render_onion`] can be asked for this identity.
pub fn can_render(onion: &str) -> (r: bool)
    ensures
        r == is_answered(onion@),
{
    let len: usize = onion.as_bytes().len();
    trim(onion).as_str().is_empty() || len <= SHORT_DATA || (LONGEST_DATA < len && len <= usize::MAX / 28)
}

/// Render an identity as a terminal QR code: lines of text, each with its line ending. A blank
/// identity, or one too long for a QR code, is an error.
pub fn render_onion(onion: &str) -> (r: Result<String>)
    requires
        is_answered(onion@),
    ensures
        outcome(r) == rendered(onion@, qr_symbol(encode_utf8(onion@))),
        trimmed(onion@).len() > 0 && encode_utf8(onion@).len() <= SHORT_DATA ==> r is Ok,
        trimmed(onion@).len() > 0 && encode_utf8(onion@).len() > LONGEST_DATA ==> outcome(r) == Err::<
            Seq<char>,
            ErrorView,
        >(ErrorView::Qr("data too long"@)),
{
    if trim(onion).as_str().is_empty() {
        return Err(Error::Qr("cannot encode an empty identity".to_owned()));
    }
    match qr_encode(onion.as_bytes()) {
        Err(e) => Err(Error::Qr(e)),
        Ok((width, modules)) => Ok(render_modules(width, &modules)),
    }
}

} // verus!

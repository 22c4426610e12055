//! QR symbols: the encoder of the `qrcode` crate behind a contract, and the
//! drawing of a symbol's dark modules.

use vstd::prelude::*;
use qrcode::{EcLevel, QrCode};
use crate::color::Color;
use crate::draw::{opt_text, paragraph_runs, DrawCallView, DrawList, Paint, TextRunView};
use crate::style::fill_spec;
use crate::text::same_text;
use crate::units::{clamp, sat_add};

verus! {

/// How much damage a symbol can take.
#[derive(Clone, Copy, Debug, PartialEq, Eq, Structural)]
pub enum CorrectionLevel {
    L,
    M,
    Q,
    H,
}

/// An encoded symbol: the number of modules on a side, and for each module,
/// row by row, whether it is dark.
#[derive(Clone, Debug, PartialEq, Eq)]
pub struct QrSymbol {
    pub side: usize,
    pub dark: Vec<bool>,
}

/// The symbol that encodes `content` at `level`, as its side and the
/// darkness of its modules row by row; nothing where `content` cannot be
/// encoded in one symbol.
pub uninterp spec fn qr_symbol(content: Seq<char>, level: CorrectionLevel) -> Option<
    (nat, Seq<bool>),
>;

/// `QrCode::with_error_correction_level` on the bytes of `content`, with the
/// side of the symbol read by `QrCode::width` and its modules by
/// `QrCode::to_colors`. The contract only names that result; an encoding
/// error gives `None`.
#[verifier::external_body]
pub(crate) fn encode_symbol(content: &str, level: CorrectionLevel) -> (r: Option<QrSymbol>)
    ensures
        match r {
            Some(s) => qr_symbol(content@, level) == Some((s.side as nat, s.dark@)),
            None => qr_symbol(content@, level) is None,
        },
{
    let ec = match level {
        CorrectionLevel::L => EcLevel::L,
        CorrectionLevel::M => EcLevel::M,
        CorrectionLevel::Q => EcLevel::Q,
        CorrectionLevel::H => EcLevel::H,
    };
    match QrCode::with_error_correction_level(content.as_bytes(), ec) {
        Ok(code) => Some(
            QrSymbol {
                side: code.width(),
                dark: code.to_colors().into_iter().map(|c| c.select(true, false)).collect(),
            },
        ),
        Err(_) => None,
    }
}

/// The level that an attribute names: "L", "Q", "H", and M for everything
/// else and for no attribute at all.
pub open spec fn level_spec(name: Option<Seq<char>>) -> CorrectionLevel {
    match name {
        Some(s) => if s == "L"@ {
            CorrectionLevel::L
        } else if s == "Q"@ {
            CorrectionLevel::Q
        } else if s == "H"@ {
            CorrectionLevel::H
        } else {
            CorrectionLevel::M
        },
        None => CorrectionLevel::M,
    }
}

/// Reads a correction level attribute.
pub fn level_of(name: &Option<String>) -> (level: CorrectionLevel)
    ensures
        level == level_spec(opt_text(*name)),
{
    match name {
        Some(s) => if same_text(s.as_str(), "L") {
            CorrectionLevel::L
        } else if same_text(s.as_str(), "Q") {
            CorrectionLevel::Q
        } else if same_text(s.as_str(), "H") {
            CorrectionLevel::H
        } else {
            CorrectionLevel::M
        },
        None => CorrectionLevel::M,
    }
}

/// `size / side`, rounded toward zero: the side of one module.
pub open spec fn module_size(size: int, side: int) -> int {
    if size >= 0 {
        size / side
    } else {
        -((-size) / side)
    }
}

/// `k` modules side by side.
pub open spec fn modules_span(module: int, k: int) -> int {
    clamp(module * k)
}

/// The square of the module at position `i` of a symbol with `side` modules
/// on a side, drawn with its top left corner at `(x, y)`.
pub open spec fn module_rect(x: i64, y: i64, module: i64, side: int, i: int) -> DrawCallView {
    DrawCallView::Rect {
        x: clamp(x + modules_span(module as int, i % side)) as i64,
        y: clamp(y + modules_span(module as int, i / side)) as i64,
        w: module,
        h: module,
        paint: fill_spec(Color::black()),
    }
}

/// The calls that draw the dark modules among the first `k` of a symbol.
pub open spec fn module_calls(
    x: i64,
    y: i64,
    module: i64,
    side: int,
    dark: Seq<bool>,
    k: int,
) -> Seq<DrawCallView>
    decreases k,
{
    if k <= 0 {
        Seq::empty()
    } else if dark[k - 1] {
        module_calls(x, y, module, side, dark, k - 1).push(module_rect(x, y, module, side, k - 1))
    } else {
        module_calls(x, y, module, side, dark, k - 1)
    }
}

/// The calls that draw a symbol of side `side` in a square of side `size`
/// at `(x, y)`: one filled square for each dark module, row by row. A
/// symbol without modules draws nothing.
pub open spec fn symbol_calls(x: i64, y: i64, size: i64, side: nat, dark: Seq<bool>) -> Seq<
    DrawCallView,
> {
    if side == 0 {
        Seq::empty()
    } else {
        module_calls(
            x,
            y,
            module_size(size as int, side as int) as i64,
            side as int,
            dark,
            dark.len() as int,
        )
    }
}

/// A symbol is drawn without paragraphs.
pub proof fn lemma_symbol_has_no_runs(x: i64, y: i64, size: i64, side: nat, dark: Seq<bool>)
    ensures
        paragraph_runs(symbol_calls(x, y, size, side, dark)) == Seq::<TextRunView>::empty(),
{
    if side != 0 {
        lemma_modules_have_no_runs(
            x,
            y,
            module_size(size as int, side as int) as i64,
            side as int,
            dark,
            dark.len() as int,
        );
    }
}

proof fn lemma_modules_have_no_runs(
    x: i64,
    y: i64,
    module: i64,
    side: int,
    dark: Seq<bool>,
    k: int,
)
    ensures
        paragraph_runs(module_calls(x, y, module, side, dark, k)) == Seq::<TextRunView>::empty(),
    decreases k,
{
    if k > 0 {
        lemma_modules_have_no_runs(x, y, module, side, dark, k - 1);
        if dark[k - 1] {
            let before = module_calls(x, y, module, side, dark, k - 1);
            let all = module_calls(x, y, module, side, dark, k);
            assert(all.drop_last() =~= before);
        }
    }
}

fn divide(size: i64, side: usize) -> (r: i64)
    requires
        side > 0,
    ensures
        r == module_size(size as int, side as int),
{
    if size >= 0 {
        ((size as i128) / (side as i128)) as i64
    } else {
        let p: i128 = -(size as i128);
        let q: i128 = p / (side as i128);
        (-q) as i64
    }
}

fn span(module: i64, k: usize) -> (r: i64)
    ensures
        r == modules_span(module as int, k as int),
{
    assert(-0x8000_0000_0000_0000 * 0xffff_ffff_ffff_ffff <= (module as int) * (k as int)
        <= 0x7fff_ffff_ffff_ffff * 0xffff_ffff_ffff_ffff) by (nonlinear_arith)
        requires
            -0x8000_0000_0000_0000 <= module <= 0x7fff_ffff_ffff_ffff,
            0 <= k <= 0xffff_ffff_ffff_ffff,
    ;
    let p: i128 = (module as i128) * (k as i128);
    if p < -9223372036854775808i128 {
        i64::MIN
    } else if p > 9223372036854775807i128 {
        i64::MAX
    } else {
        p as i64
    }
}

impl QrSymbol {
    /// Draws the symbol in a square of side `size` with its top left corner
    /// at `(x, y)`: a filled black square, without anti-aliasing, for each
    /// dark module.
    pub fn draw(&self, canvas: &mut DrawList, x: i64, y: i64, size: i64)
        requires
            old(canvas).wf(),
        ensures
            final(canvas).wf(),
            final(canvas).paragraphs == old(canvas).paragraphs,
            final(canvas)@ == old(canvas)@ + symbol_calls(x, y, size, self.side as nat, self.dark@),
    {
        let side = self.side;
        if side == 0 {
            assert(canvas@ =~= old(canvas)@ + Seq::<DrawCallView>::empty());
            return ;
        }
        let module = divide(size, side);
        let mut i: usize = 0;
        assert(canvas@ =~= old(canvas)@ + Seq::<DrawCallView>::empty());
        while i < self.dark.len()
            invariant
                i <= self.dark.len(),
                side == self.side,
                side > 0,
                canvas.wf(),
                canvas.paragraphs == old(canvas).paragraphs,
                canvas@ == old(canvas)@ + module_calls(
                    x,
                    y,
                    module,
                    side as int,
                    self.dark@,
                    i as int,
                ),
            decreases self.dark.len() - i,
        {
            if self.dark[i] {
                let row = i / side;
                let col = i % side;
                canvas.draw_rect(
                    sat_add(x, span(module, col)),
                    sat_add(y, span(module, row)),
                    module,
                    module,
                    Paint::fill(Color::black()),
                );
                assert(canvas@ =~= old(canvas)@ + module_calls(
                    x,
                    y,
                    module,
                    side as int,
                    self.dark@,
                    i + 1,
                ));
            }
            i += 1;
        }
    }
}

} // verus!

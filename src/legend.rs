use vstd::prelude::*;
use vstd::string::StringExecFns;
use crate::grid::Grid;
use crate::options::ColorScheme;

verus! {

/// Number of swatches in a legend; it carries one more label than this.
pub const NUM_COLORS: usize = 7;

/// Fixed-point scale of densities: a stored value of `DENSITY_ONE` is 1.0.
pub const DENSITY_ONE: u64 = 1_000_000;

/// An opaque RGB colour.
#[derive(Clone, Copy, Debug, PartialEq, Eq, Structural)]
pub struct Rgb {
    pub r: u8,
    pub g: u8,
    pub b: u8,
}

/// A legend: swatch colours in ascending order and the boundary labels
/// between them, starting with the zero floor.
pub struct Legend {
    pub colors: Vec<Rgb>,
    pub labels: Vec<u64>,
}

/// What a named gradient gives when sampled at step `i` of `n`, for the
/// schemes that are sampled exactly.
pub uninterp spec fn rational_sample(scheme: ColorScheme, i: nat, n: nat) -> (u8, u8, u8);

/// Whether a scheme's colours are computed from tables and plain arithmetic
/// alone. Warm and Cool go through `f32::sin` and `f32::cos`, whose precision
/// std leaves unspecified, so their samples may differ between platforms.
pub open spec fn sampled_exactly(scheme: ColorScheme) -> bool {
    scheme != ColorScheme::Warm && scheme != ColorScheme::Cool
}

/// Relies on colorous::Gradient::eval_rational, which samples the gradient at
/// `i / n` (with `i` clamped to `n - 1`) and panics on `n == 0`. For the
/// schemes built from tables and plain arithmetic the sample depends on the
/// scheme and the two numbers alone; of Warm and Cool nothing is claimed.
#[verifier::external_body]
fn eval_rational(scheme: ColorScheme, i: usize, n: usize) -> (r: Rgb)
    requires
        n > 0,
    ensures
        sampled_exactly(scheme) ==> (r.r, r.g, r.b) == rational_sample(scheme, i as nat, n as nat),
{
    let g = match scheme {
        ColorScheme::Turbo => colorous::TURBO,
        ColorScheme::Inferno => colorous::INFERNO,
        ColorScheme::Warm => colorous::WARM,
        ColorScheme::Cool => colorous::COOL,
        ColorScheme::Oranges => colorous::ORANGES,
        ColorScheme::Spectral => colorous::SPECTRAL,
    };
    let c = g.eval_rational(i, n);
    Rgb { r: c.r, g: c.g, b: c.b }
}

/// The character of a decimal digit.
pub open spec fn digit_char(d: nat) -> char {
    if d == 0 { '0' } else if d == 1 { '1' } else if d == 2 { '2' } else if d == 3 { '3' }
    else if d == 4 { '4' } else if d == 5 { '5' } else if d == 6 { '6' } else if d == 7 { '7' }
    else if d == 8 { '8' } else { '9' }
}

/// `n` written in decimal, without sign or leading zeros.
pub open spec fn decimal(n: nat) -> Seq<char>
    decreases n,
{
    if n < 10 {
        seq![digit_char(n)]
    } else {
        decimal(n / 10).push(digit_char(n % 10))
    }
}

fn digit_text(d: u64) -> (r: &'static str)
    requires
        d < 10,
    ensures
        r@ == seq![digit_char(d as nat)],
{
    if d == 0 {
        proof { reveal_strlit("0"); }
        "0"
    } else if d == 1 {
        proof { reveal_strlit("1"); }
        "1"
    } else if d == 2 {
        proof { reveal_strlit("2"); }
        "2"
    } else if d == 3 {
        proof { reveal_strlit("3"); }
        "3"
    } else if d == 4 {
        proof { reveal_strlit("4"); }
        "4"
    } else if d == 5 {
        proof { reveal_strlit("5"); }
        "5"
    } else if d == 6 {
        proof { reveal_strlit("6"); }
        "6"
    } else if d == 7 {
        proof { reveal_strlit("7"); }
        "7"
    } else if d == 8 {
        proof { reveal_strlit("8"); }
        "8"
    } else {
        proof { reveal_strlit("9"); }
        "9"
    }
}

/// `n` written in decimal.
pub fn decimal_text(n: u64) -> (r: String)
    ensures
        r@ == decimal(n as nat),
    decreases n,
{
    if n < 10 {
        String::from_str(digit_text(n))
    } else {
        let mut s = decimal_text(n / 10);
        s.append(digit_text(n % 10));
        s
    }
}

/// The whole-unit part of a fixed-point density.
pub open spec fn truncated(v: u64) -> nat {
    (v / DENSITY_ONE) as nat
}

/// The largest truncated value in `s`, zero for an empty sequence.
pub open spec fn max_truncated(s: Seq<u64>) -> nat
    decreases s.len(),
{
    if s.len() == 0 {
        0
    } else {
        let rest = max_truncated(s.drop_last());
        let last = truncated(s.last());
        if last > rest { last } else { rest }
    }
}

/// `round(i / 7 * max)`: the label at the upper edge of swatch `i`.
pub open spec fn label_value(i: nat, max: nat) -> int {
    (2 * i * max + 7) as int / 14
}

/// The legend has seven swatch colours; for a scheme that is sampled
/// exactly, swatch `i` is the gradient at `i / 7`.
pub open spec fn legend_colors_ok(scheme: ColorScheme, colors: Seq<Rgb>) -> bool {
    &&& colors.len() == NUM_COLORS
    &&& sampled_exactly(scheme) ==> forall|i: int| 0 <= i < NUM_COLORS ==> (colors[i].r, colors[i].g, colors[i].b)
        == #[trigger] rational_sample(scheme, i as nat, NUM_COLORS as nat)
}

/// The legend's labels: zero, then `round(i / 7 * max)` for `i` in `1..=7`.
pub open spec fn legend_labels_ok(max: nat, labels: Seq<u64>) -> bool {
    &&& labels.len() == NUM_COLORS + 1
    &&& forall|i: int| 0 <= i <= NUM_COLORS ==> labels[i] as int == #[trigger] label_value(i as nat, max)
}

impl Legend {
    /// The labels as text, in decimal.
    pub fn label_texts(&self) -> (r: Vec<String>)
        ensures
            r@.len() == self.labels@.len(),
            forall|i: int| 0 <= i < r@.len() ==> #[trigger] r@[i]@ == decimal(self.labels@[i] as nat),
    {
        let mut out: Vec<String> = Vec::new();
        let mut i: usize = 0;
        while i < self.labels.len()
            invariant
                i <= self.labels@.len(),
                out@.len() == i,
                forall|j: int| 0 <= j < i ==> #[trigger] out@[j]@ == decimal(self.labels@[j] as nat),
            decreases self.labels@.len() - i,
        {
            out.push(decimal_text(self.labels[i]));
            i = i + 1;
        }
        out
    }
}

/// The maximum of the truncated cell values of a density grid.
pub fn histogram_max(grid: &Grid<u64>) -> (r: u64)
    ensures
        r as nat == max_truncated(grid.data@),
{
    let mut best: u64 = 0;
    let mut i: usize = 0;
    while i < grid.data.len()
        invariant
            i <= grid.data@.len(),
            best as nat == max_truncated(grid.data@.take(i as int)),
        decreases grid.data@.len() - i,
    {
        let t: u64 = grid.data[i] / DENSITY_ONE;
        proof {
            assert(grid.data@.take(i as int + 1).drop_last() =~= grid.data@.take(i as int));
        }
        if t > best {
            best = t;
        }
        i = i + 1;
    }
    proof {
        assert(grid.data@.take(i as int) =~= grid.data@);
    }
    best
}

/// Swatch colours: the gradient sampled at seven evenly spaced steps.
pub fn legend_colors(scheme: ColorScheme) -> (r: Vec<Rgb>)
    ensures
        legend_colors_ok(scheme, r@),
{
    let mut colors: Vec<Rgb> = Vec::new();
    let mut i: usize = 0;
    while i < NUM_COLORS
        invariant
            i <= NUM_COLORS,
            colors@.len() == i,
            sampled_exactly(scheme) ==> forall|j: int| 0 <= j < i ==> (colors@[j].r, colors@[j].g, colors@[j].b)
                == #[trigger] rational_sample(scheme, j as nat, NUM_COLORS as nat),
        decreases NUM_COLORS - i,
    {
        let c = eval_rational(scheme, i, NUM_COLORS);
        colors.push(c);
        i = i + 1;
    }
    colors
}

/// Labels for a maximum density of `max`: zero, then `round(i / 7 * max)`.
pub fn legend_labels(max: u64) -> (r: Vec<u64>)
    ensures
        legend_labels_ok(max as nat, r@),
{
    let mut labels: Vec<u64> = Vec::new();
    labels.push(0);
    proof {
        assert(2 * 0 * (max as nat) == 0) by (nonlinear_arith);
        assert(label_value(0, max as nat) == 0);
    }
    let mut i: u64 = 1;
    while i <= NUM_COLORS as u64
        invariant
            1 <= i <= NUM_COLORS + 1,
            labels@.len() == i,
            forall|j: int| 0 <= j < i ==> labels@[j] as int == #[trigger] label_value(j as nat, max as nat),
        decreases NUM_COLORS + 1 - i,
    {
        proof {
            assert(2 * (i as int) * (max as int) <= 14 * 0xffff_ffff_ffff_ffffint) by (nonlinear_arith)
                requires i <= 7, max <= 0xffff_ffff_ffff_ffffint;
            assert(((2 * (i as int) * (max as int) + 7) / 14) <= max) by (nonlinear_arith)
                requires i <= 7, max >= 0;
        }
        let wide: u128 = (2 * (i as u128) * (max as u128) + 7) / 14;
        labels.push(wide as u64);
        i = i + 1;
    }
    labels
}

/// The legend of a heatmap whose largest truncated density is `max`.
pub fn make_legend(scheme: ColorScheme, max: u64) -> (r: Legend)
    ensures
        legend_colors_ok(scheme, r.colors@),
        legend_labels_ok(max as nat, r.labels@),
{
    Legend { colors: legend_colors(scheme), labels: legend_labels(max) }
}

/// Labels never decrease from one edge to the next, and the last one is the
/// maximum itself.
pub proof fn lemma_labels_monotone(max: nat, labels: Seq<u64>, i: int, j: int)
    requires
        legend_labels_ok(max, labels),
        0 <= i <= j <= NUM_COLORS,
    ensures
        labels[i] <= labels[j],
        labels[NUM_COLORS as int] == max,
{
    assert(2 * i * max <= 2 * j * max) by (nonlinear_arith)
        requires 0 <= i <= j, max >= 0;
    lemma_div_monotone(2 * i * max + 7, 2 * j * max + 7, 14);
    assert(labels[i] as int == label_value(i as nat, max));
    assert(labels[j] as int == label_value(j as nat, max));
    assert(2 * 7 * max == max * 14) by (nonlinear_arith);
    vstd::arithmetic::div_mod::lemma_fundamental_div_mod_converse((2 * 7 * max + 7) as int, 14, max as int, 7);
    let k: int = 7;
    assert(labels[k] as int == label_value(k as nat, max));
    assert(label_value(k as nat, max) == max);
}

/// With nothing to show, the legend has seven swatches and eight labels, all
/// zero.
pub proof fn lemma_empty_legend(colors: Seq<Rgb>, labels: Seq<u64>, scheme: ColorScheme)
    requires
        legend_colors_ok(scheme, colors),
        legend_labels_ok(0, labels),
    ensures
        colors.len() == 7,
        labels.len() == 8,
        forall|i: int| 0 <= i < 8 ==> labels[i] == 0 && decimal(labels[i] as nat) == seq!['0'],
{
    assert forall|i: int| 0 <= i < 8 implies labels[i] == 0 by {
        assert(labels[i] as int == label_value(i as nat, 0));
        assert(2 * (i as nat) * 0 == 0) by (nonlinear_arith);
    }
}

proof fn lemma_div_monotone(a: int, b: int, d: int)
    requires
        0 <= a <= b,
        0 < d,
    ensures
        a / d <= b / d,
{
    vstd::arithmetic::div_mod::lemma_div_is_ordered(a, b, d);
}

} // verus!

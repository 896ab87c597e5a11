//! What the quota icon, the quota window and the splash screen show, apart
//! from drawing it: texts, colours and the integer layout of the tray icon.
use vstd::prelude::*;

use crate::config::{ProxySetting, ProxyView};
use crate::settings::div_toward_zero;

verus! {

pub const PROXY_CONNECTION_PREFIX: &'static str = "正在通过代理连接  ";

pub const DIRECT_CONNECTION_TEXT: &'static str = "正在直接连接";

pub const NOT_CONNECTED_TEXT: &'static str = "未连接";

pub const CONNECTING_TEXT: &'static str = "连接中";

pub const EXPIRED_TEXT: &'static str = "已过期";

pub const REMAINING_TEXT: &'static str = "剩余";

pub const EXPIRED_NOTE: &'static str = "\n数据已过期";

pub const NO_DATA_NOTE: &'static str = "\n正在连接 / 暂无数据";

/// Dots of the splash screen's spinner.
pub const SPINNER_DOTS: usize = 10;

/// The splash screen's line about how ChatGPT connects.
pub fn connection_text(setting: &ProxySetting) -> (r: String)
    ensures
        r@ == match setting@ {
            ProxyView::Proxy(url) => PROXY_CONNECTION_PREFIX@ + url,
            ProxyView::Direct => DIRECT_CONNECTION_TEXT@,
        },
{
    match setting.proxy_url() {
        Some(url) => {
            let mut text = String::from_str(PROXY_CONNECTION_PREFIX);
            text.append(url);
            text
        },
        None => String::from_str(DIRECT_CONNECTION_TEXT),
    }
}

/// The quota window's status word: not connected after a failure with no
/// data yet, connecting before any data, expired for stale data, else remaining.
pub fn status_text(has_update: bool, has_error: bool, stale: bool) -> (r: &'static str)
    ensures
        r@ == if !has_update {
            if has_error {
                NOT_CONNECTED_TEXT@
            } else {
                CONNECTING_TEXT@
            }
        } else if stale {
            EXPIRED_TEXT@
        } else {
            REMAINING_TEXT@
        },
{
    if !has_update {
        if has_error {
            NOT_CONNECTED_TEXT
        } else {
            CONNECTING_TEXT
        }
    } else if stale {
        EXPIRED_TEXT
    } else {
        REMAINING_TEXT
    }
}

/// The tray tooltip's note on stale data: expired once data was read, else
/// still connecting.
pub fn stale_note(has_update: bool) -> (r: &'static str)
    ensures
        r@ == if has_update {
            EXPIRED_NOTE@
        } else {
            NO_DATA_NOTE@
        },
{
    if has_update {
        EXPIRED_NOTE
    } else {
        NO_DATA_NOTE
    }
}

/// A GDI colour (`COLORREF`): red in the low byte, then green, then blue.
pub fn rgb(red: u8, green: u8, blue: u8) -> (r: u32)
    ensures
        r == red + green * 256 + blue * 65536,
{
    let (r, g, b) = (red as u32, green as u32, blue as u32);
    assert(r | (g << 8) | (b << 16) == r + g * 256 + b * 65536) by (bit_vector)
        requires
            r < 256,
            g < 256,
            b < 256,
    ;
    r | (g << 8) | (b << 16)
}

/// The brightness of spinner dot `index` when the spinner is at `phase`:
/// brightest at the phase and 18 less for each dot behind it, at least 65.
pub open spec fn spinner_intensity(index: int, phase: int) -> int {
    let distance = (index + SPINNER_DOTS - phase) % (SPINNER_DOTS as int);
    if 230 - distance * 18 < 65 {
        65
    } else {
        230 - distance * 18
    }
}

/// The spinner turns as a whole: moving the phase and a dot one step on
/// keeps the dot's brightness; the dot at the phase is the brightest (230),
/// and no dot is darker than 65.
pub proof fn lemma_spinner_turns(index: int, phase: int)
    requires
        0 <= index < SPINNER_DOTS,
        0 <= phase < SPINNER_DOTS,
    ensures
        spinner_intensity((index + 1) % (SPINNER_DOTS as int), (phase + 1) % (SPINNER_DOTS as int))
            == spinner_intensity(index, phase),
        spinner_intensity(phase, phase) == 230,
        65 <= spinner_intensity(index, phase) <= spinner_intensity(phase, phase),
{
}

/// The colour of spinner dot `index` at `phase`, as red, green and blue: a
/// green whose red and blue parts are 45% and 82% of its brightness.
pub fn spinner_color(index: usize, phase: usize) -> (r: (u8, u8, u8))
    requires
        index < SPINNER_DOTS,
        phase < SPINNER_DOTS,
    ensures
        r.1 == spinner_intensity(index as int, phase as int),
        r.0 == spinner_intensity(index as int, phase as int) * 45 / 100,
        r.2 == spinner_intensity(index as int, phase as int) * 82 / 100,
{
    let distance = (index + SPINNER_DOTS - phase) % SPINNER_DOTS;
    let dimmed = 230u8.saturating_sub(distance as u8 * 18);
    let intensity = if dimmed < 65 {
        65
    } else {
        dimmed
    };
    let red = (intensity as u16 * 45 / 100) as u8;
    let blue = (intensity as u16 * 82 / 100) as u8;
    (red, intensity, blue)
}

/// A rectangle in device pixels.
#[derive(Clone, Copy, Debug, PartialEq, Eq, Structural)]
pub struct Bounds {
    pub left: i32,
    pub top: i32,
    pub right: i32,
    pub bottom: i32,
}

/// The metrics of one glyph, as `GetGlyphOutlineW` reports them.
#[derive(Clone, Copy, Debug, PartialEq, Eq, Structural)]
pub struct GlyphBox {
    pub origin_x: i32,
    pub origin_y: i32,
    pub black_box_x: u32,
    pub black_box_y: u32,
    pub cell_inc_x: i16,
}

pub open spec fn fits_i32(x: int) -> bool {
    i32::MIN <= x <= i32::MAX
}

/// The pen position before glyph `k`: the sum of the advances before it.
pub open spec fn pen_before(glyphs: Seq<GlyphBox>, k: int) -> int
    decreases k,
{
    if k <= 0 {
        0
    } else {
        pen_before(glyphs, k - 1) + glyphs[k - 1].cell_inc_x
    }
}

/// The ink box of glyph `k` set at the pen position, its top measured from
/// the line's top at `ascent` above the baseline.
pub open spec fn glyph_left(glyphs: Seq<GlyphBox>, k: int) -> int {
    pen_before(glyphs, k) + glyphs[k].origin_x
}

pub open spec fn glyph_top(ascent: i32, glyphs: Seq<GlyphBox>, k: int) -> int {
    ascent - glyphs[k].origin_y
}

pub open spec fn glyph_right(glyphs: Seq<GlyphBox>, k: int) -> int {
    glyph_left(glyphs, k) + (glyphs[k].black_box_x as i32)
}

pub open spec fn glyph_bottom(ascent: i32, glyphs: Seq<GlyphBox>, k: int) -> int {
    glyph_top(ascent, glyphs, k) + (glyphs[k].black_box_y as i32)
}

/// Every coordinate of the ink boxes, and every pen position, fits in `i32`.
pub open spec fn ink_in_range(ascent: i32, glyphs: Seq<GlyphBox>) -> bool {
    forall|k: int|
        0 <= k < glyphs.len() ==> {
            &&& fits_i32(#[trigger] glyph_left(glyphs, k))
            &&& fits_i32(glyph_top(ascent, glyphs, k))
            &&& fits_i32(glyph_right(glyphs, k))
            &&& fits_i32(glyph_bottom(ascent, glyphs, k))
            &&& fits_i32(pen_before(glyphs, k + 1))
        }
}

/// The smallest rectangle holding the ink of all glyphs of a line (for no
/// glyphs, the empty rectangle from `i32::MAX` to `i32::MIN`).
pub open spec fn ink_bounds_of(ascent: i32, glyphs: Seq<GlyphBox>) -> Bounds
    decreases glyphs.len(),
{
    if glyphs.len() == 0 {
        Bounds { left: i32::MAX, top: i32::MAX, right: i32::MIN, bottom: i32::MIN }
    } else {
        let k = glyphs.len() - 1;
        let before = ink_bounds_of(ascent, glyphs.drop_last());
        let left = glyph_left(glyphs, k);
        let top = glyph_top(ascent, glyphs, k);
        let right = glyph_right(glyphs, k);
        let bottom = glyph_bottom(ascent, glyphs, k);
        Bounds {
            left: if left < before.left {
                left as i32
            } else {
                before.left
            },
            top: if top < before.top {
                top as i32
            } else {
                before.top
            },
            right: if right > before.right {
                right as i32
            } else {
                before.right
            },
            bottom: if bottom > before.bottom {
                bottom as i32
            } else {
                before.bottom
            },
        }
    }
}

proof fn lemma_prefix_metrics(ascent: i32, glyphs: Seq<GlyphBox>, n: int, k: int)
    requires
        0 <= k < n <= glyphs.len(),
    ensures
        pen_before(glyphs.take(n), k) == pen_before(glyphs, k),
        pen_before(glyphs.take(n), k + 1) == pen_before(glyphs, k + 1),
        glyph_left(glyphs.take(n), k) == glyph_left(glyphs, k),
        glyph_top(ascent, glyphs.take(n), k) == glyph_top(ascent, glyphs, k),
        glyph_right(glyphs.take(n), k) == glyph_right(glyphs, k),
        glyph_bottom(ascent, glyphs.take(n), k) == glyph_bottom(ascent, glyphs, k),
    decreases k,
{
    let prefix = glyphs.take(n);
    assert(prefix[k] == glyphs[k]);
    if k > 0 {
        lemma_prefix_metrics(ascent, glyphs, n, k - 1);
        assert(prefix[k - 1] == glyphs[k - 1]);
        assert(pen_before(prefix, k) == pen_before(prefix, k - 1) + prefix[k - 1].cell_inc_x);
    } else {
        assert(pen_before(prefix, 0) == 0);
        assert(pen_before(glyphs, 0) == 0);
    }
    assert(pen_before(prefix, k + 1) == pen_before(prefix, k) + prefix[k].cell_inc_x);
    assert(pen_before(glyphs, k + 1) == pen_before(glyphs, k) + glyphs[k].cell_inc_x);
}

/// The pen moves by every glyph's advance: glyphs that all advance by `a`
/// put the pen at `k * a` before glyph `k`.
pub proof fn lemma_pen_equal_advances(glyphs: Seq<GlyphBox>, a: int, k: int)
    requires
        0 <= k <= glyphs.len(),
        forall|j: int| 0 <= j < k ==> #[trigger] glyphs[j].cell_inc_x == a,
    ensures
        pen_before(glyphs, k) == k * a,
    decreases k,
{
    if k > 0 {
        lemma_pen_equal_advances(glyphs, a, k - 1);
        assert(glyphs[k - 1].cell_inc_x == a);
        assert(k * a == (k - 1) * a + a) by (nonlinear_arith);
    } else {
        assert(k * a == 0) by (nonlinear_arith)
            requires
                k == 0,
        ;
    }
}

/// Setting a line after another starts where the first one left the pen:
/// the advances of both add up.
pub proof fn lemma_pen_concatenation(first: Seq<GlyphBox>, second: Seq<GlyphBox>, k: int)
    requires
        0 <= k <= second.len(),
    ensures
        pen_before(first + second, first.len() + k) == pen_before(first, first.len() as int)
            + pen_before(second, k),
    decreases k,
{
    let line = first + second;
    if k > 0 {
        lemma_pen_concatenation(first, second, k - 1);
        assert(line[first.len() + k - 1] == second[k - 1]);
    } else {
        lemma_pen_prefix(first, second, first.len() as int);
    }
}

proof fn lemma_pen_prefix(first: Seq<GlyphBox>, second: Seq<GlyphBox>, k: int)
    requires
        0 <= k <= first.len(),
    ensures
        pen_before(first + second, k) == pen_before(first, k),
    decreases k,
{
    if k > 0 {
        lemma_pen_prefix(first, second, k - 1);
        assert((first + second)[k - 1] == first[k - 1]);
    }
}

/// The ink rectangle holds the ink box of every glyph, and each of its four
/// sides touches the box of some glyph: it is the smallest such rectangle.
pub proof fn lemma_ink_bounds_is_tight(ascent: i32, glyphs: Seq<GlyphBox>)
    requires
        glyphs.len() > 0,
        ink_in_range(ascent, glyphs),
    ensures
        ({
            let b = ink_bounds_of(ascent, glyphs);
            &&& forall|k: int|
                0 <= k < glyphs.len() ==> {
                    &&& b.left <= #[trigger] glyph_left(glyphs, k)
                    &&& b.top <= glyph_top(ascent, glyphs, k)
                    &&& glyph_right(glyphs, k) <= b.right
                    &&& glyph_bottom(ascent, glyphs, k) <= b.bottom
                }
            &&& exists|k: int| 0 <= k < glyphs.len() && b.left == #[trigger] glyph_left(glyphs, k)
            &&& exists|k: int| 0 <= k < glyphs.len() && b.top == #[trigger] glyph_top(ascent, glyphs, k)
            &&& exists|k: int| 0 <= k < glyphs.len() && b.right == #[trigger] glyph_right(glyphs, k)
            &&& exists|k: int| 0 <= k < glyphs.len() && b.bottom == #[trigger] glyph_bottom(ascent, glyphs, k)
        }),
    decreases glyphs.len(),
{
    let n = glyphs.len() as int;
    let init = glyphs.drop_last();
    let last = n - 1;
    assert(glyphs.take(n) =~= glyphs);
    assert forall|k: int| 0 <= k < n - 1 implies {
        &&& glyph_left(init, k) == glyph_left(glyphs, k)
        &&& glyph_top(ascent, init, k) == glyph_top(ascent, glyphs, k)
        &&& glyph_right(init, k) == glyph_right(glyphs, k)
        &&& glyph_bottom(ascent, init, k) == glyph_bottom(ascent, glyphs, k)
        &&& pen_before(init, k + 1) == pen_before(glyphs, k + 1)
    } by {
        lemma_prefix_metrics(ascent, glyphs, n - 1, k);
        assert(glyphs.take(n - 1) =~= init);
    }
    let b = ink_bounds_of(ascent, glyphs);
    assert(fits_i32(glyph_left(glyphs, last)));
    if n > 1 {
        assert(ink_in_range(ascent, init)) by {
            assert forall|k: int| 0 <= k < init.len() implies {
                &&& fits_i32(#[trigger] glyph_left(init, k))
                &&& fits_i32(glyph_top(ascent, init, k))
                &&& fits_i32(glyph_right(init, k))
                &&& fits_i32(glyph_bottom(ascent, init, k))
                &&& fits_i32(pen_before(init, k + 1))
            } by {
                assert(fits_i32(glyph_left(glyphs, k)));
            }
        }
        lemma_ink_bounds_is_tight(ascent, init);
        let p = ink_bounds_of(ascent, init);
        assert forall|k: int| 0 <= k < n implies {
            &&& b.left <= #[trigger] glyph_left(glyphs, k)
            &&& b.top <= glyph_top(ascent, glyphs, k)
            &&& glyph_right(glyphs, k) <= b.right
            &&& glyph_bottom(ascent, glyphs, k) <= b.bottom
        } by {
            if k < last {
                assert(glyph_left(init, k) == glyph_left(glyphs, k));
            }
        }
        let kl = choose|k: int| 0 <= k < init.len() && p.left == #[trigger] glyph_left(init, k);
        let kt = choose|k: int| 0 <= k < init.len() && p.top == #[trigger] glyph_top(ascent, init, k);
        let kr = choose|k: int| 0 <= k < init.len() && p.right == #[trigger] glyph_right(init, k);
        let kb = choose|k: int| 0 <= k < init.len() && p.bottom == #[trigger] glyph_bottom(ascent, init, k);
        assert(glyph_left(init, kl) == glyph_left(glyphs, kl));
        assert(glyph_top(ascent, init, kt) == glyph_top(ascent, glyphs, kt));
        assert(glyph_right(init, kr) == glyph_right(glyphs, kr));
        assert(glyph_bottom(ascent, init, kb) == glyph_bottom(ascent, glyphs, kb));
        if b.left == glyph_left(glyphs, last) {} else { assert(b.left == glyph_left(glyphs, kl)); }
        if b.top == glyph_top(ascent, glyphs, last) {} else { assert(b.top == glyph_top(ascent, glyphs, kt)); }
        if b.right == glyph_right(glyphs, last) {} else { assert(b.right == glyph_right(glyphs, kr)); }
        if b.bottom == glyph_bottom(ascent, glyphs, last) {} else { assert(b.bottom == glyph_bottom(ascent, glyphs, kb)); }
    } else {
        assert(init.len() == 0);
        assert(ink_bounds_of(ascent, init) == Bounds {
            left: i32::MAX,
            top: i32::MAX,
            right: i32::MIN,
            bottom: i32::MIN,
        });
        assert(b.left == glyph_left(glyphs, 0));
        assert(b.top == glyph_top(ascent, glyphs, 0));
        assert(b.right == glyph_right(glyphs, 0));
        assert(b.bottom == glyph_bottom(ascent, glyphs, 0));
    }
}

/// A line of `n` equal glyphs that advance the pen by `a >= 0` (such as
/// the digits of `100` in a condensed face) has its ink from the first
/// glyph's left edge to `(n - 1) * a` past the first glyph's right edge.
pub proof fn lemma_equal_glyphs_ink(ascent: i32, glyphs: Seq<GlyphBox>, g: GlyphBox)
    requires
        glyphs.len() > 0,
        forall|j: int| 0 <= j < glyphs.len() ==> #[trigger] glyphs[j] == g,
        g.cell_inc_x >= 0,
        ink_in_range(ascent, glyphs),
    ensures
        ink_bounds_of(ascent, glyphs).left == g.origin_x,
        ink_bounds_of(ascent, glyphs).right == (glyphs.len() - 1) * g.cell_inc_x + g.origin_x + (
        g.black_box_x as i32),
{
    let n = glyphs.len() as int;
    let a = g.cell_inc_x as int;
    let b = ink_bounds_of(ascent, glyphs);
    lemma_ink_bounds_is_tight(ascent, glyphs);
    assert forall|k: int| 0 <= k < n implies #[trigger] pen_before(glyphs, k) == k * a by {
        lemma_pen_equal_advances(glyphs, a, k);
    }
    assert forall|k: int| 0 <= k < n implies 0 * a <= #[trigger] (k * a) <= (n - 1) * a by {
        assert(0 * a <= k * a <= (n - 1) * a) by (nonlinear_arith)
            requires
                0 <= k <= n - 1,
                a >= 0,
        ;
    }
    assert(pen_before(glyphs, 0) == 0);
    assert(glyph_left(glyphs, 0) == g.origin_x);
    assert(pen_before(glyphs, n - 1) == (n - 1) * a);
    assert(glyph_right(glyphs, n - 1) == (n - 1) * a + g.origin_x + (g.black_box_x as i32));
    let kl = choose|k: int| 0 <= k < n && b.left == #[trigger] glyph_left(glyphs, k);
    assert(pen_before(glyphs, kl) == kl * a);
    assert(kl * a >= 0 * a);
    let kr = choose|k: int| 0 <= k < n && b.right == #[trigger] glyph_right(glyphs, k);
    assert(pen_before(glyphs, kr) == kr * a);
    assert(kr * a <= (n - 1) * a);
}

/// The ink rectangle of a line of glyphs, found by setting each glyph at
/// the pen position and moving the pen by its advance.
pub fn ink_bounds(ascent: i32, glyphs: &Vec<GlyphBox>) -> (r: Bounds)
    requires
        ink_in_range(ascent, glyphs@),
    ensures
        r == ink_bounds_of(ascent, glyphs@),
{
    let mut bounds = Bounds { left: i32::MAX, top: i32::MAX, right: i32::MIN, bottom: i32::MIN };
    let mut pen: i32 = 0;
    assert(glyphs@.take(0) =~= Seq::<GlyphBox>::empty());
    for k in 0..glyphs.len()
        invariant
            ink_in_range(ascent, glyphs@),
            pen == pen_before(glyphs@, k as int),
            bounds == ink_bounds_of(ascent, glyphs@.take(k as int)),
    {
        let glyph = glyphs[k];
        let ghost n = k + 1;
        proof {
            let prefix = glyphs@.take(n);
            assert(prefix.drop_last() =~= glyphs@.take(k as int));
            lemma_prefix_metrics(ascent, glyphs@, n, k as int);
            assert(fits_i32(glyph_left(glyphs@, k as int)));
        }
        let left = pen + glyph.origin_x;
        let top = ascent - glyph.origin_y;
        let right = left + #[verifier::truncate] (glyph.black_box_x as i32);
        let bottom = top + #[verifier::truncate] (glyph.black_box_y as i32);
        if left < bounds.left {
            bounds.left = left;
        }
        if top < bounds.top {
            bounds.top = top;
        }
        if right > bounds.right {
            bounds.right = right;
        }
        if bottom > bounds.bottom {
            bounds.bottom = bottom;
        }
        pen = pen + glyph.cell_inc_x as i32;
    }
    assert(glyphs@.take(glyphs.len() as int) =~= glyphs@);
    bounds
}

/// The font height the icon's digits start from: one and a half icon sizes,
/// rounded toward zero.
pub fn initial_font_size(size: i32) -> (r: i32)
    requires
        i32::MIN <= size * 3 <= i32::MAX,
    ensures
        r == div_toward_zero(size * 3, 2),
{
    size * 3 / 2
}

/// The font width for the icon text: condensed to a third of the height
/// (at least 3) for three or more characters, else the font's own width (0).
pub fn font_width(font_size: i32, text_length: usize) -> (r: i32)
    ensures
        r == if text_length > 2 {
            if div_toward_zero(font_size as int, 3) > 3 {
                div_toward_zero(font_size as int, 3)
            } else {
                3
            }
        } else {
            0
        },
{
    if text_length > 2 {
        let third = font_size / 3;
        if third > 3 {
            third
        } else {
            3
        }
    } else {
        0
    }
}

/// Whether the measured ink fits the icon, leaving two columns and three
/// rows free; an unmeasured text never fits.
pub fn ink_fits(ink: Option<Bounds>, size: i32) -> (r: bool)
    requires
        i32::MIN + 3 <= size,
        ink matches Some(b) ==> fits_i32(b.right - b.left) && fits_i32(b.bottom - b.top),
    ensures
        r == match ink {
            Some(b) => b.right - b.left <= size - 2 && b.bottom - b.top <= size - 3,
            None => false,
        },
{
    match ink {
        Some(b) => b.right - b.left <= size - 2 && b.bottom - b.top <= size - 3,
        None => false,
    }
}

/// Whether the font search ends: the text fits, or the font is as small as
/// it may get (5).
pub fn font_search_done(fits: bool, font_size: i32) -> (r: bool)
    ensures
        r == (fits || font_size <= 5),
{
    fits || font_size <= 5
}

/// Where the text must start so that its ink is centred in the icon.
pub fn ink_origin(size: i32, ink: Bounds) -> (r: (i32, i32))
    requires
        fits_i32(ink.right - ink.left),
        fits_i32(ink.bottom - ink.top),
        fits_i32(size - (ink.right - ink.left)),
        fits_i32(size - (ink.bottom - ink.top)),
        fits_i32(div_toward_zero(size - (ink.right - ink.left), 2) - ink.left),
        fits_i32(div_toward_zero(size - (ink.bottom - ink.top), 2) - ink.top),
    ensures
        r.0 == div_toward_zero(size - (ink.right - ink.left), 2) - ink.left,
        r.1 == div_toward_zero(size - (ink.bottom - ink.top), 2) - ink.top,
{
    let width = ink.right - ink.left;
    let height = ink.bottom - ink.top;
    ((size - width) / 2 - ink.left, (size - height) / 2 - ink.top)
}

/// The byte length of the icon's all-zero one-bit mask: rows padded to
/// 16 pixels (two bytes), one row per pixel of height. The length is
/// computed in `i32`, so it must fit there.
pub fn mask_length(size: i32) -> (r: usize)
    requires
        0 <= size,
        (size + 15) / 16 * 2 * size <= i32::MAX,
    ensures
        r == (size + 15) / 16 * 2 * size,
{
    let rows = size as u64;
    assert((rows + 15) / 16 * 2 * rows <= 0x4000_0000 * 2 * 0x8000_0000) by (nonlinear_arith)
        requires
            rows < 0x8000_0000,
    ;
    let length = (rows + 15) / 16 * 2 * rows;
    length as usize
}

} // verus!

//! The layout engine: where each run starts on its line, and how large the canvas is.
//!
//! Widths are sums of advance widths in hundredths of a pixel. The canvas is measured in
//! whole pixels, rounded up, so that nothing that was measured is cut off.

use vstd::prelude::*;
use crate::dimensions::Dimensions;
use crate::error::SiaError;
use crate::metrics::{FontMetrics, MetricsView, WidthMode};
use crate::style::{line_text, lines_view, RunView, StyledLine};
use crate::text::chars_of;

verus! {

/// The width of `s`: the sum of the widths of its characters.
pub open spec fn text_width(m: MetricsView, mode: WidthMode, s: Seq<char>) -> nat
    decreases s.len(),
{
    if s.len() == 0 {
        0
    } else {
        text_width(m, mode, s.drop_last()) + m.char_width(mode, s.last())
    }
}

/// The width of a line: the sum of the widths of its runs.
pub open spec fn line_width(m: MetricsView, mode: WidthMode, line: Seq<RunView>) -> nat
    decreases line.len(),
{
    if line.len() == 0 {
        0
    } else {
        line_width(m, mode, line.drop_last()) + text_width(m, mode, line.last().text)
    }
}

/// Where run `k` of a line starts: the sum of the widths of the runs before it.
pub open spec fn run_offset(m: MetricsView, mode: WidthMode, line: Seq<RunView>, k: int) -> nat {
    line_width(m, mode, line.take(k))
}

/// The width of the widest line, and zero for no lines.
pub open spec fn max_line_width(m: MetricsView, mode: WidthMode, lines: Seq<Seq<RunView>>) -> nat
    decreases lines.len(),
{
    if lines.len() == 0 {
        0
    } else {
        let before = max_line_width(m, mode, lines.drop_last());
        let last = line_width(m, mode, lines.last());
        if last > before {
            last
        } else {
            before
        }
    }
}

/// A length in hundredths of a pixel, rounded up to whole pixels.
pub open spec fn px_ceil(hundredths: nat) -> nat {
    (hundredths + 99) / 100
}

/// The height of the text block in hundredths of a pixel: one line height for each line and
/// one more, which is the padding below the last line.
pub open spec fn text_height(m: MetricsView, line_count: nat) -> nat {
    (m.line_height() * (line_count + 1)) as nat
}

/// The canvas width, in pixels, that the lines need.
pub open spec fn canvas_width(m: MetricsView, mode: WidthMode, lines: Seq<Seq<RunView>>) -> nat {
    px_ceil(max_line_width(m, mode, lines))
}

/// The canvas height, in pixels, that `line_count` lines need.
pub open spec fn canvas_height(m: MetricsView, line_count: nat) -> nat {
    px_ceil(text_height(m, line_count))
}

/// The dimensions of the canvas: the explicit ones where the caller gave any, and else those
/// that the lines need.
pub open spec fn canvas_size(
    explicit: Option<Dimensions>,
    m: MetricsView,
    mode: WidthMode,
    lines: Seq<Seq<RunView>>,
) -> (nat, nat) {
    match explicit {
        Some(d) => (d.width as nat, d.height as nat),
        None => (canvas_width(m, mode, lines), canvas_height(m, lines.len())),
    }
}

/// A prefix of a text is no wider than the text, and one more character adds its width.
proof fn lemma_text_width_prefix(m: MetricsView, mode: WidthMode, s: Seq<char>, j: int)
    requires
        0 <= j <= s.len(),
    ensures
        text_width(m, mode, s.take(j)) <= text_width(m, mode, s),
        j < s.len() ==> text_width(m, mode, s.take(j + 1)) == text_width(m, mode, s.take(j))
            + m.char_width(mode, s[j]),
    decreases s.len() - j,
{
    if j == s.len() {
        assert(s.take(j) == s);
    } else {
        assert(s.take(j + 1).drop_last() == s.take(j));
        lemma_text_width_prefix(m, mode, s, j + 1);
    }
}

/// Two texts, one after the other, are as wide as the two together.
pub proof fn lemma_text_width_concat(m: MetricsView, mode: WidthMode, a: Seq<char>, b: Seq<char>)
    ensures
        text_width(m, mode, a + b) == text_width(m, mode, a) + text_width(m, mode, b),
    decreases b.len(),
{
    if b.len() == 0 {
        assert(a + b == a);
    } else {
        lemma_text_width_concat(m, mode, a, b.drop_last());
        assert((a + b).drop_last() == a + b.drop_last());
        assert((a + b).last() == b.last());
    }
}

/// In the approximation by a reference glyph a text is as wide as the advance width of that
/// glyph times the number of its characters.
pub proof fn lemma_reference_width(m: MetricsView, reference: char, s: Seq<char>)
    ensures
        text_width(m, WidthMode::Reference(reference), s) == m.advance(reference) * s.len(),
    decreases s.len(),
{
    let advance = m.advance(reference);
    if s.len() == 0 {
        assert(advance * 0 == 0);
    } else {
        lemma_reference_width(m, reference, s.drop_last());
        let n = s.len() as int;
        assert(advance * (n - 1) + advance == advance * n) by (nonlinear_arith);
    }
}

/// A line is as wide as its text: the sum of the advance widths of its characters, however
/// the text is cut into runs.
pub proof fn lemma_line_width_is_text_width(m: MetricsView, mode: WidthMode, line: Seq<RunView>)
    ensures
        line_width(m, mode, line) == text_width(m, mode, line_text(line)),
    decreases line.len(),
{
    if line.len() > 0 {
        lemma_line_width_is_text_width(m, mode, line.drop_last());
        lemma_text_width_concat(m, mode, line_text(line.drop_last()), line.last().text);
    }
}

/// The first runs of a line are no wider than the line, and one more run adds its width.
proof fn lemma_line_width_prefix(m: MetricsView, mode: WidthMode, line: Seq<RunView>, k: int)
    requires
        0 <= k <= line.len(),
    ensures
        line_width(m, mode, line.take(k)) <= line_width(m, mode, line),
        k < line.len() ==> line_width(m, mode, line.take(k + 1)) == line_width(
            m,
            mode,
            line.take(k),
        ) + text_width(m, mode, line[k].text),
    decreases line.len() - k,
{
    if k == line.len() {
        assert(line.take(k) == line);
    } else {
        assert(line.take(k + 1).drop_last() == line.take(k));
        lemma_line_width_prefix(m, mode, line, k + 1);
    }
}

/// The widest of the first lines is no wider than the widest of all, and one more line is
/// taken in by comparing its width.
proof fn lemma_max_line_width_prefix(
    m: MetricsView,
    mode: WidthMode,
    lines: Seq<Seq<RunView>>,
    i: int,
)
    requires
        0 <= i <= lines.len(),
    ensures
        max_line_width(m, mode, lines.take(i)) <= max_line_width(m, mode, lines),
        i < lines.len() ==> max_line_width(m, mode, lines.take(i + 1)) == if line_width(
            m,
            mode,
            lines[i],
        ) > max_line_width(m, mode, lines.take(i)) {
            line_width(m, mode, lines[i])
        } else {
            max_line_width(m, mode, lines.take(i))
        },
    decreases lines.len() - i,
{
    if i == lines.len() {
        assert(lines.take(i) == lines);
    } else {
        assert(lines.take(i + 1).drop_last() == lines.take(i));
        lemma_max_line_width_prefix(m, mode, lines, i + 1);
    }
}

/// No line is wider than the widest, and the widest is as wide as one of the lines.
pub proof fn lemma_max_line_width_bounds(m: MetricsView, mode: WidthMode, lines: Seq<Seq<RunView>>)
    ensures
        forall|i: int|
            0 <= i < lines.len() ==> line_width(m, mode, #[trigger] lines[i]) <= max_line_width(
                m,
                mode,
                lines,
            ),
        lines.len() == 0 ==> max_line_width(m, mode, lines) == 0,
        lines.len() > 0 ==> exists|i: int|
            0 <= i < lines.len() && line_width(m, mode, #[trigger] lines[i]) == max_line_width(
                m,
                mode,
                lines,
            ),
    decreases lines.len(),
{
    if lines.len() > 0 {
        let front = lines.drop_last();
        lemma_max_line_width_bounds(m, mode, front);
        assert forall|i: int| 0 <= i < lines.len() implies line_width(m, mode, #[trigger] lines[i])
            <= max_line_width(m, mode, lines) by {
            if i < front.len() {
                assert(front[i] == lines[i]);
            }
        }
        if line_width(m, mode, lines.last()) > max_line_width(m, mode, front) || front.len() == 0 {
            assert(line_width(m, mode, lines[lines.len() - 1]) == max_line_width(m, mode, lines));
        } else {
            let i = choose|i: int|
                0 <= i < front.len() && line_width(m, mode, #[trigger] front[i]) == max_line_width(
                    m,
                    mode,
                    front,
                );
            assert(front[i] == lines[i]);
        }
    }
}

/// Width monotonicity: the canvas is at least as wide as every line. Of a document without
/// lines it is zero pixels wide, and it is zero pixels wide only where no line has any width.
pub proof fn lemma_canvas_width_covers_lines(
    m: MetricsView,
    mode: WidthMode,
    lines: Seq<Seq<RunView>>,
)
    ensures
        forall|i: int|
            0 <= i < lines.len() ==> line_width(m, mode, #[trigger] lines[i]) <= 100 * canvas_size(
                None,
                m,
                mode,
                lines,
            ).0,
        lines.len() == 0 ==> canvas_size(None, m, mode, lines).0 == 0,
        canvas_size(None, m, mode, lines).0 == 0 <==> forall|i: int|
            0 <= i < lines.len() ==> line_width(m, mode, #[trigger] lines[i]) == 0,
{
    lemma_max_line_width_bounds(m, mode, lines);
}

/// Height formula: without explicit dimensions the canvas is as high as the line height times
/// the number of lines and one, rounded up to whole pixels; where the line height is a whole
/// number of pixels, nothing is rounded.
pub proof fn lemma_canvas_height_formula(
    m: MetricsView,
    mode: WidthMode,
    lines: Seq<Seq<RunView>>,
)
    requires
        m.well_formed(),
    ensures
        canvas_size(None, m, mode, lines).1 == px_ceil(
            (m.line_height() * (lines.len() + 1)) as nat,
        ),
        100 * (canvas_size(None, m, mode, lines).1 - 1) < m.line_height() * (lines.len() + 1)
            <= 100 * canvas_size(None, m, mode, lines).1,
        m.line_height() % 100 == 0 ==> canvas_size(None, m, mode, lines).1 == (m.line_height()
            / 100) * (lines.len() + 1),
        lines.len() == 0 ==> canvas_size(None, m, mode, lines).1 == px_ceil(m.line_height() as nat),
{
    let h = m.line_height();
    let n = lines.len() + 1;
    assert(h * n >= 0) by (nonlinear_arith)
        requires
            h >= 0,
            n >= 1,
    ;
    if n == 1 {
        assert(h * n == h) by (nonlinear_arith)
            requires
                n == 1,
        ;
    }
    if h % 100 == 0 {
        let q = h / 100;
        assert(h == q * 100);
        assert(h * n == (q * n) * 100) by (nonlinear_arith)
            requires
                h == q * 100,
        ;
    }
}

/// Override precedence: explicit dimensions are the dimensions of the canvas, whatever the
/// text and the metrics are.
pub proof fn lemma_explicit_dimensions_win(
    explicit: Dimensions,
    m: MetricsView,
    mode: WidthMode,
    lines: Seq<Seq<RunView>>,
)
    ensures
        canvas_size(Some(explicit), m, mode, lines) == (
            explicit.width as nat,
            explicit.height as nat,
        ),
{
}

/// Where the runs of one line start, and how wide the line is, in hundredths of a pixel.
#[derive(Debug)]
pub struct LineLayout {
    /// The horizontal offset of each run.
    pub offsets: Vec<u32>,
    /// The width of the whole line.
    pub width: u32,
}

impl LineLayout {
    /// Is this the layout of `line` under the metrics `m` and the width mode `mode`?
    pub open spec fn is_layout_of(
        self,
        m: MetricsView,
        mode: WidthMode,
        line: Seq<RunView>,
    ) -> bool {
        &&& self.width == line_width(m, mode, line)
        &&& self.offsets@.len() == line.len()
        &&& forall|k: int|
            0 <= k < line.len() ==> (#[trigger] self.offsets@[k]) == run_offset(m, mode, line, k)
    }
}

/// The layout of a document: of each line, and the dimensions of the canvas.
#[derive(Debug)]
pub struct Layout {
    pub lines: Vec<LineLayout>,
    pub dimensions: Dimensions,
}

impl Layout {
    /// Is this the layout of `lines`, with the canvas that `explicit` asks for or the lines
    /// need?
    pub open spec fn is_layout_of(
        self,
        explicit: Option<Dimensions>,
        m: MetricsView,
        mode: WidthMode,
        lines: Seq<Seq<RunView>>,
    ) -> bool {
        &&& self.dimensions.width == canvas_size(explicit, m, mode, lines).0
        &&& self.dimensions.height == canvas_size(explicit, m, mode, lines).1
        &&& self.lines@.len() == lines.len()
        &&& forall|i: int|
            0 <= i < lines.len() ==> (#[trigger] self.lines@[i]).is_layout_of(m, mode, lines[i])
    }

    /// Does the layout hold one offset for each run of each of `lines`?
    pub open spec fn fits(self, lines: Seq<Seq<RunView>>) -> bool {
        &&& self.lines@.len() == lines.len()
        &&& forall|i: int|
            0 <= i < lines.len() ==> (#[trigger] self.lines@[i]).offsets@.len() == lines[i].len()
    }
}

/// Adds the width of `text` to `start`. Nothing comes back where the sum does not fit in 32
/// bits.
fn add_text_width(metrics: &FontMetrics, mode: WidthMode, text: &str, start: u32) -> (out: Option<
    u32,
>)
    ensures
        match out {
            Some(w) => w == start + text_width(metrics@, mode, text@),
            None => start + text_width(metrics@, mode, text@) > u32::MAX,
        },
{
    let chars = chars_of(text);
    let mut acc: u32 = start;
    let mut j: usize = 0;
    while j < chars.len()
        invariant
            j <= chars.len(),
            chars@ == text@,
            acc == start + text_width(metrics@, mode, chars@.take(j as int)),
        decreases chars.len() - j,
    {
        let w = metrics.char_width(mode, chars[j]);
        proof {
            lemma_text_width_prefix(metrics@, mode, chars@, j as int);
        }
        if w > u32::MAX - acc {
            proof {
                lemma_text_width_prefix(metrics@, mode, chars@, j + 1);
            }
            return None;
        }
        acc = acc + w;
        j += 1;
    }
    assert(chars@.take(chars.len() as int) == chars@);
    Some(acc)
}

/// Lays out one line: walks its runs from left to right and adds up their widths. Nothing
/// comes back where the line is wider than 32 bits can say.
pub fn layout_line(line: &StyledLine, metrics: &FontMetrics, mode: WidthMode) -> (out: Option<
    LineLayout,
>)
    ensures
        match out {
            Some(l) => l.is_layout_of(metrics@, mode, line@),
            None => line_width(metrics@, mode, line@) > u32::MAX,
        },
{
    let mut offsets: Vec<u32> = Vec::new();
    let mut acc: u32 = 0;
    let mut k: usize = 0;
    while k < line.runs.len()
        invariant
            k <= line.runs.len(),
            offsets@.len() == k,
            acc == line_width(metrics@, mode, line@.take(k as int)),
            forall|i: int|
                0 <= i < k ==> (#[trigger] offsets@[i]) == run_offset(metrics@, mode, line@, i),
        decreases line.runs.len() - k,
    {
        proof {
            lemma_line_width_prefix(metrics@, mode, line@, k as int);
            assert(line@[k as int].text == line.runs@[k as int].text@);
        }
        offsets.push(acc);
        match add_text_width(metrics, mode, line.runs[k].text.as_str(), acc) {
            Some(w) => {
                acc = w;
            },
            None => {
                proof {
                    lemma_line_width_prefix(metrics@, mode, line@, k + 1);
                }
                return None;
            },
        }
        k += 1;
    }
    assert(line@.take(line.runs.len() as int) == line@);
    Some(LineLayout { offsets, width: acc })
}

/// The canvas height for `num_lines` lines: the explicit height where the caller gave
/// dimensions, and else the line height times the number of lines and one, rounded up to whole
/// pixels.
pub fn get_canvas_height(
    explicit: Option<Dimensions>,
    num_lines: usize,
    metrics: &FontMetrics,
) -> (out: Result<u32, SiaError>)
    ensures
        match out {
            Ok(h) => match explicit {
                Some(d) => h == d.height,
                None => h == canvas_height(metrics@, num_lines as nat),
            },
            Err(e) => explicit is None && canvas_height(metrics@, num_lines as nat) > u32::MAX
                && e.is_invalid_config("canvas height"@),
        },
{
    if let Some(d) = explicit {
        return Ok(d.height);
    }
    let line_height: u128 = metrics.line_height() as u128;
    let count: u128 = num_lines as u128 + 1;
    assert(line_height * count <= 0xffff_ffff * 0x1_0000_0000_0000_0000) by (nonlinear_arith)
        requires
            0 <= line_height <= 0xffff_ffff,
            0 <= count <= 0x1_0000_0000_0000_0000,
    ;
    let total: u128 = line_height * count;
    let pixels: u128 = (total + 99) / 100;
    if pixels > 0xffff_ffff {
        Err(SiaError::invalid_config("canvas height"))
    } else {
        Ok(pixels as u32)
    }
}

/// Lays out a document: each line by [`layout_line`], and the canvas as wide as the widest
/// line and as high as [`get_canvas_height`] says, unless the caller gave explicit
/// dimensions, which are then used as they are.
pub fn layout(
    lines: &Vec<StyledLine>,
    metrics: &FontMetrics,
    mode: WidthMode,
    explicit: Option<Dimensions>,
) -> (out: Result<Layout, SiaError>)
    ensures
        match out {
            Ok(l) => {
                &&& l.is_layout_of(explicit, metrics@, mode, lines_view(lines@))
                &&& l.fits(lines_view(lines@))
            },
            Err(e) => if max_line_width(metrics@, mode, lines_view(lines@)) > u32::MAX {
                e.is_invalid_config("canvas width"@)
            } else {
                &&& explicit is None
                &&& canvas_height(metrics@, lines@.len()) > u32::MAX
                &&& e.is_invalid_config("canvas height"@)
            },
        },
{
    let ghost all = lines_view(lines@);
    let mut laid: Vec<LineLayout> = Vec::new();
    let mut widest: u32 = 0;
    let mut i: usize = 0;
    while i < lines.len()
        invariant
            i <= lines.len(),
            all == lines_view(lines@),
            laid@.len() == i,
            widest == max_line_width(metrics@, mode, all.take(i as int)),
            forall|n: int|
                0 <= n < i ==> (#[trigger] laid@[n]).is_layout_of(metrics@, mode, all[n]),
        decreases lines.len() - i,
    {
        proof {
            lemma_max_line_width_prefix(metrics@, mode, all, i as int);
            assert(all[i as int] == lines@[i as int]@);
        }
        match layout_line(&lines[i], metrics, mode) {
            Some(l) => {
                if l.width > widest {
                    widest = l.width;
                }
                laid.push(l);
            },
            None => {
                proof {
                    lemma_max_line_width_prefix(metrics@, mode, all, i + 1);
                }
                return Err(SiaError::invalid_config("canvas width"));
            },
        }
        i += 1;
    }
    assert(all.take(lines.len() as int) == all);
    let dimensions = match explicit {
        Some(d) => d,
        None => {
            let width: u32 = ((widest as u64 + 99) / 100) as u32;
            match get_canvas_height(None, lines.len(), metrics) {
                Ok(height) => Dimensions { width, height },
                Err(e) => {
                    return Err(e);
                },
            }
        },
    };
    Ok(Layout { lines: laid, dimensions })
}

/// The dimensions of the canvas for `lines`. Explicit dimensions are handed back as they are,
/// and nothing is measured.
pub fn canvas_dimensions(
    explicit: Option<Dimensions>,
    lines: &Vec<StyledLine>,
    metrics: &FontMetrics,
    mode: WidthMode,
) -> (out: Result<Dimensions, SiaError>)
    ensures
        explicit matches Some(d) ==> out matches Ok(got) && got == d,
        match out {
            Ok(d) => {
                &&& d.width == canvas_size(explicit, metrics@, mode, lines_view(lines@)).0
                &&& d.height == canvas_size(explicit, metrics@, mode, lines_view(lines@)).1
            },
            Err(e) => explicit is None && if max_line_width(metrics@, mode, lines_view(lines@))
                > u32::MAX {
                e.is_invalid_config("canvas width"@)
            } else {
                canvas_height(metrics@, lines@.len()) > u32::MAX && e.is_invalid_config(
                    "canvas height"@,
                )
            },
        },
{
    match explicit {
        Some(d) => Ok(d),
        None => match layout(lines, metrics, mode, None) {
            Ok(l) => Ok(l.dimensions),
            Err(e) => Err(e),
        },
    }
}

} // verus!

//! The document as markup: one line of text without line breaks, the same for the same
//! document every time.

use vstd::prelude::*;
use vstd::string::StringExecFns;
use crate::color::{hex_color, push_hex_color};
use crate::document::{
    run_node, DocumentView, Frame, Group, GroupView, LineNode, LineNodeView, RunNode, RunNodeView,
    VectorDocument,
};
use crate::style::RunView;
use crate::dimensions::{dimension_value, without_px};
use crate::escape::{
    decode, escape, escape_attribute, lemma_decode_escape, push_escaped, Place,
};
use crate::text::{
    decimal, hundredths, is_digit, lemma_decimal_round_trip, push_decimal, push_hundredths,
    without_plus,
};

verus! {

/// The colour attribute of a run, which stands only where the run has a colour of its own.
pub open spec fn fill_attribute(fill: Option<crate::color::Rgb>) -> Seq<char> {
    match fill {
        Some(c) => " fill=\""@ + hex_color(c) + "\""@,
        None => Seq::empty(),
    }
}

/// The weight attribute of a run, which stands only where the run is bold.
pub open spec fn weight_attribute(bold: bool) -> Seq<char> {
    if bold {
        " font-weight=\"bold\""@
    } else {
        Seq::empty()
    }
}

/// The slant attribute of a run, which stands only where the run is italic.
pub open spec fn slant_attribute(italic: bool) -> Seq<char> {
    if italic {
        " font-style=\"italic\""@
    } else {
        Seq::empty()
    }
}

/// The offset attribute of a run, which stands only where the run is placed by itself.
pub open spec fn offset_attribute(x: Option<u32>) -> Seq<char> {
    match x {
        Some(x) => " x=\""@ + hundredths(x as nat) + "\""@,
        None => Seq::empty(),
    }
}

/// The attributes of a run: each stands only where the run has a style of its own.
pub open spec fn run_attributes(r: RunNodeView) -> Seq<char> {
    fill_attribute(r.fill) + weight_attribute(r.bold) + slant_attribute(r.italic)
        + offset_attribute(r.x)
}

/// The markup of one run. Its text stands as it is: it was escaped when the node was made.
pub open spec fn run_markup(r: RunNodeView) -> Seq<char> {
    "<tspan"@ + run_attributes(r) + ">"@ + r.text + "</tspan>"@
}

/// The markup of runs, one after the other.
pub open spec fn runs_markup(runs: Seq<RunNodeView>) -> Seq<char>
    decreases runs.len(),
{
    if runs.len() == 0 {
        Seq::empty()
    } else {
        runs_markup(runs.drop_last()) + run_markup(runs.last())
    }
}

/// The markup of one line of text.
pub open spec fn line_markup(l: LineNodeView) -> Seq<char> {
    "<text x=\"0\" y=\""@ + hundredths(l.baseline) + "em\" xml:space=\"preserve\">"@ + runs_markup(
        l.runs,
    ) + "</text>"@
}

/// The markup of lines, one after the other.
pub open spec fn lines_markup(lines: Seq<LineNodeView>) -> Seq<char>
    decreases lines.len(),
{
    if lines.len() == 0 {
        Seq::empty()
    } else {
        lines_markup(lines.drop_last()) + line_markup(lines.last())
    }
}

/// The markup of the group of all text.
pub open spec fn group_markup(g: GroupView) -> Seq<char> {
    "<g font-family=\""@ + escape_attribute(g.font_family) + "\" font-size=\""@ + hundredths(
        g.font_size as nat,
    ) + "\" fill=\""@ + hex_color(g.fill) + "\">"@ + lines_markup(g.lines) + "</g>"@
}

/// The width or height attribute of a canvas of `pixels` pixels.
pub open spec fn px_attribute(pixels: u32) -> Seq<char> {
    decimal(pixels as nat) + "px"@
}

/// The markup of a whole document.
pub open spec fn document_markup(d: DocumentView) -> Seq<char> {
    "<svg xmlns=\"http://www.w3.org/2000/svg\" width=\""@ + px_attribute(d.dimensions.width)
        + "\" height=\""@ + px_attribute(d.dimensions.height)
        + "\"><rect width=\"100%\" height=\"100%\" fill=\""@ + hex_color(d.background) + "\"/>"@
        + group_markup(d.group) + "</svg>"@
}

/// Default-attribute omission in markup: a run without a style of its own, placed by the
/// flow of the text, is written without any attribute.
pub proof fn lemma_plain_run_has_no_attributes(r: RunNodeView)
    requires
        r.is_plain(),
        r.x is None,
    ensures
        run_markup(r) == "<tspan"@ + ">"@ + r.text + "</tspan>"@,
{
    assert(run_attributes(r) =~= Seq::<char>::empty());
    assert("<tspan"@ + run_attributes(r) =~= "<tspan"@);
}

/// Default-attribute omission, from styled run to markup: a run that looks exactly like the
/// group's default is written, where runs follow the flow of the text, as its escaped text
/// between bare tags.
pub proof fn lemma_default_run_markup(run: RunView, frame: Frame, offset: u32)
    requires
        run.is_default(frame.colors.foreground),
        !frame.positioned,
    ensures
        run_markup(run_node(run, frame, offset)) == "<tspan"@ + ">"@ + escape(run.text)
            + "</tspan>"@,
{
    lemma_plain_run_has_no_attributes(run_node(run, frame, offset));
}

/// The declared width and height read back: what a reader of length attributes makes of the
/// attribute of a canvas of `pixels` pixels is that number of pixels.
pub proof fn lemma_px_attribute_reads_back(pixels: u32)
    ensures
        dimension_value(px_attribute(pixels)) == pixels,
{
    let digits = decimal(pixels as nat);
    let written = px_attribute(pixels);
    reveal_strlit("px");
    lemma_decimal_round_trip(pixels as nat);
    assert("px"@ == seq!['p', 'x']);
    assert(written.take(written.len() - 2) == digits);
    assert(written[written.len() - 2] == 'p');
    assert(written[written.len() - 1] == 'x');
    assert(without_px(written) == without_px(digits));
    if digits.len() >= 2 {
        assert(is_digit(digits[digits.len() - 1]));
    }
    assert(without_px(digits) == digits);
    assert(without_plus(digits) == digits);
}

/// The family name in the markup reads back: a markup reader makes of the attribute of the
/// group the name of the font family.
pub proof fn lemma_font_family_reads_back(g: GroupView)
    ensures
        decode(escape_attribute(g.font_family)) == g.font_family,
{
    lemma_decode_escape(g.font_family, Place::Attribute);
}

/// Appends the colour attribute of a run to `out`.
fn push_fill(out: &mut String, fill: Option<crate::color::Rgb>)
    ensures
        final(out)@ == old(out)@ + fill_attribute(fill),
{
    match fill {
        Some(c) => {
            out.append(" fill=\"");
            push_hex_color(out, c);
            out.append("\"");
            assert(out@ =~= old(out)@ + fill_attribute(fill));
        },
        None => {
            assert(out@ =~= old(out)@ + fill_attribute(fill));
        },
    }
}

/// Appends the weight and slant attributes of a run to `out`.
fn push_font_style(out: &mut String, bold: bool, italic: bool)
    ensures
        final(out)@ == old(out)@ + weight_attribute(bold) + slant_attribute(italic),
{
    if bold {
        out.append(" font-weight=\"bold\"");
    }
    assert(out@ =~= old(out)@ + weight_attribute(bold));
    if italic {
        out.append(" font-style=\"italic\"");
    }
    assert(out@ =~= old(out)@ + weight_attribute(bold) + slant_attribute(italic));
}

/// Appends the offset attribute of a run to `out`.
fn push_offset(out: &mut String, x: Option<u32>)
    ensures
        final(out)@ == old(out)@ + offset_attribute(x),
{
    match x {
        Some(x) => {
            out.append(" x=\"");
            push_hundredths(out, x as u128);
            out.append("\"");
            assert(out@ =~= old(out)@ + offset_attribute(Some(x)));
        },
        None => {
            assert(out@ =~= old(out)@ + offset_attribute(x));
        },
    }
}

/// Appends the markup of one run to `out`.
fn push_run(out: &mut String, run: &RunNode)
    ensures
        final(out)@ == old(out)@ + run_markup(run@),
{
    out.append("<tspan");
    push_fill(out, run.fill);
    push_font_style(out, run.bold, run.italic);
    push_offset(out, run.x);
    out.append(">");
    out.append(run.text.as_str());
    out.append("</tspan>");
    assert(out@ =~= old(out)@ + run_markup(run@));
}

/// Appends the markup of one line to `out`.
fn push_line(out: &mut String, line: &LineNode)
    ensures
        final(out)@ == old(out)@ + line_markup(line@),
{
    out.append("<text x=\"0\" y=\"");
    push_hundredths(out, line.baseline);
    out.append("em\" xml:space=\"preserve\">");
    let ghost start = out@;
    let mut k: usize = 0;
    assert(line@.runs.take(0) =~= Seq::<RunNodeView>::empty());
    assert(out@ =~= start + runs_markup(line@.runs.take(0)));
    while k < line.runs.len()
        invariant
            k <= line.runs.len(),
            out@ == start + runs_markup(line@.runs.take(k as int)),
        decreases line.runs.len() - k,
    {
        push_run(out, &line.runs[k]);
        proof {
            let next = line@.runs.take(k + 1);
            assert(next.drop_last() =~= line@.runs.take(k as int));
            assert(next.last() == line.runs@[k as int]@);
            assert(out@ =~= start + runs_markup(next));
        }
        k += 1;
    }
    assert(line@.runs.take(line.runs.len() as int) =~= line@.runs);
    out.append("</text>");
    assert(out@ =~= old(out)@ + line_markup(line@));
}

/// Appends the markup of the group to `out`.
fn push_group(out: &mut String, group: &Group)
    ensures
        final(out)@ == old(out)@ + group_markup(group@),
{
    out.append("<g font-family=\"");
    push_escaped(out, group.font_family.as_str(), Place::Attribute);
    out.append("\" font-size=\"");
    push_hundredths(out, group.font_size as u128);
    out.append("\" fill=\"");
    push_hex_color(out, group.fill);
    out.append("\">");
    let ghost start = out@;
    let mut i: usize = 0;
    assert(group@.lines.take(0) =~= Seq::<LineNodeView>::empty());
    assert(out@ =~= start + lines_markup(group@.lines.take(0)));
    while i < group.lines.len()
        invariant
            i <= group.lines.len(),
            out@ == start + lines_markup(group@.lines.take(i as int)),
        decreases group.lines.len() - i,
    {
        push_line(out, &group.lines[i]);
        proof {
            let next = group@.lines.take(i + 1);
            assert(next.drop_last() =~= group@.lines.take(i as int));
            assert(next.last() == group.lines@[i as int]@);
            assert(out@ =~= start + lines_markup(next));
        }
        i += 1;
    }
    assert(group@.lines.take(group.lines.len() as int) =~= group@.lines);
    out.append("</g>");
    assert(out@ =~= old(out)@ + group_markup(group@));
}

impl VectorDocument {
    /// The document as markup.
    pub fn to_markup(&self) -> (out: String)
        ensures
            out@ == document_markup(self@),
    {
        let mut out = String::from_str("<svg xmlns=\"http://www.w3.org/2000/svg\" width=\"");
        push_decimal(&mut out, self.dimensions.width as u128);
        out.append("px");
        out.append("\" height=\"");
        push_decimal(&mut out, self.dimensions.height as u128);
        out.append("px");
        out.append("\"><rect width=\"100%\" height=\"100%\" fill=\"");
        push_hex_color(&mut out, self.background);
        out.append("\"/>");
        push_group(&mut out, &self.group);
        out.append("</svg>");
        assert(out@ =~= document_markup(self@));
        out
    }
}

} // verus!

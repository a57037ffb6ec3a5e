//! The vector document: a background, and one group of text lines whose runs carry only the
//! style that differs from the group's.

use vstd::prelude::*;
use vstd::string::StringExecFns;
use crate::color::Rgb;
use crate::dimensions::Dimensions;
use crate::escape::{decode, escape, escape_text, lemma_decode_escape, Place};
use crate::layout::{Layout, LineLayout};
use crate::style::{lines_view, RunView, StyledLine, StyledRun};

verus! {

/// The two colours that a theme declares for a whole document.
#[derive(Clone, Copy, Debug, PartialEq, Eq, Structural)]
pub struct ThemeColors {
    pub background: Rgb,
    pub foreground: Rgb,
}

/// One run of a line in the document.
#[derive(Debug)]
pub struct RunNode {
    /// The text of the run, escaped.
    pub text: String,
    /// The colour of the run, where it is not the group's.
    pub fill: Option<Rgb>,
    pub bold: bool,
    pub italic: bool,
    /// Where the run starts, in hundredths of a pixel, where runs are placed one by one.
    pub x: Option<u32>,
}

/// The mathematical value of a [`RunNode`].
pub struct RunNodeView {
    pub text: Seq<char>,
    pub fill: Option<Rgb>,
    pub bold: bool,
    pub italic: bool,
    pub x: Option<u32>,
}

impl View for RunNode {
    type V = RunNodeView;

    open spec fn view(&self) -> RunNodeView {
        RunNodeView {
            text: self.text@,
            fill: self.fill,
            bold: self.bold,
            italic: self.italic,
            x: self.x,
        }
    }
}

impl RunNodeView {
    /// Does the node carry no style of its own?
    pub open spec fn is_plain(self) -> bool {
        self.fill is None && !self.bold && !self.italic
    }
}

/// One line of text in the document.
#[derive(Debug)]
pub struct LineNode {
    /// The height of the baseline below the top of the canvas, in hundredths of an em.
    pub baseline: u128,
    pub runs: Vec<RunNode>,
}

/// The mathematical value of a [`LineNode`].
pub struct LineNodeView {
    pub baseline: nat,
    pub runs: Seq<RunNodeView>,
}

impl View for LineNode {
    type V = LineNodeView;

    open spec fn view(&self) -> LineNodeView {
        LineNodeView {
            baseline: self.baseline as nat,
            runs: self.runs@.map_values(|r: RunNode| r@),
        }
    }
}

/// The group that holds all text, with the style that its runs have by default.
#[derive(Debug)]
pub struct Group {
    pub font_family: String,
    /// The font size in hundredths of a pixel.
    pub font_size: u32,
    pub fill: Rgb,
    pub lines: Vec<LineNode>,
}

/// The mathematical value of a [`Group`].
pub struct GroupView {
    pub font_family: Seq<char>,
    pub font_size: u32,
    pub fill: Rgb,
    pub lines: Seq<LineNodeView>,
}

impl View for Group {
    type V = GroupView;

    open spec fn view(&self) -> GroupView {
        GroupView {
            font_family: self.font_family@,
            font_size: self.font_size,
            fill: self.fill,
            lines: self.lines@.map_values(|l: LineNode| l@),
        }
    }
}

/// A whole vector document.
#[derive(Debug)]
pub struct VectorDocument {
    /// The declared size of the canvas, in whole pixels.
    pub dimensions: Dimensions,
    /// The colour of the rectangle that covers the canvas.
    pub background: Rgb,
    pub group: Group,
}

/// The mathematical value of a [`VectorDocument`].
pub struct DocumentView {
    pub dimensions: Dimensions,
    pub background: Rgb,
    pub group: GroupView,
}

impl View for VectorDocument {
    type V = DocumentView;

    open spec fn view(&self) -> DocumentView {
        DocumentView {
            dimensions: self.dimensions,
            background: self.background,
            group: self.group@,
        }
    }
}

/// What the assembler is told besides the lines and their layout.
pub struct Frame {
    pub colors: ThemeColors,
    pub font_family: Seq<char>,
    /// The font size in hundredths of a pixel.
    pub font_size: u32,
    /// The distance between baselines in hundredths of an em.
    pub em_multiplier: u32,
    /// Is each run given its own horizontal offset?
    pub positioned: bool,
}

/// The node of one run: its text escaped, its colour only where it is not the group's, and
/// its offset only where runs are placed one by one.
pub open spec fn run_node(run: RunView, frame: Frame, offset: u32) -> RunNodeView {
    RunNodeView {
        text: escape(run.text),
        fill: if run.foreground == frame.colors.foreground {
            None
        } else {
            Some(run.foreground)
        },
        bold: run.bold,
        italic: run.italic,
        x: if frame.positioned {
            Some(offset)
        } else {
            None
        },
    }
}

/// The node of line number `index`, counted from zero: its baseline lies one more than
/// `index` times the em multiplier below the top.
pub open spec fn line_node(
    index: nat,
    line: Seq<RunView>,
    frame: Frame,
    offsets: Seq<u32>,
) -> LineNodeView {
    LineNodeView {
        baseline: (index + 1) * frame.em_multiplier as nat,
        runs: Seq::new(line.len(), |k: int| run_node(line[k], frame, offsets[k])),
    }
}

/// The document of `lines`: a background over the whole canvas, and a group with the default
/// style and one node for each line, in the order of the lines.
pub open spec fn document_of(
    lines: Seq<Seq<RunView>>,
    frame: Frame,
    dimensions: Dimensions,
    offsets: Seq<Seq<u32>>,
) -> DocumentView {
    DocumentView {
        dimensions,
        background: frame.colors.background,
        group: GroupView {
            font_family: frame.font_family,
            font_size: frame.font_size,
            fill: frame.colors.foreground,
            lines: Seq::new(lines.len(), |i: int| line_node(i as nat, lines[i], frame, offsets[i])),
        },
    }
}

impl Layout {
    /// The offsets of the runs of every line.
    pub open spec fn offsets(self) -> Seq<Seq<u32>> {
        self.lines@.map_values(|l: LineLayout| l.offsets@)
    }
}

/// Default-attribute omission: a run that looks exactly like the group's default carries no
/// colour and no font style in the document.
pub proof fn lemma_default_run_is_plain(run: RunView, frame: Frame, offset: u32)
    ensures
        run.is_default(frame.colors.foreground) <==> run_node(run, frame, offset).is_plain(),
        run_node(run, frame, offset).fill is Some <==> run.foreground != frame.colors.foreground,
        run_node(run, frame, offset).fill matches Some(c) ==> c == run.foreground,
{
}

/// Escaping round trip in the document: a markup reader makes of the text of a run's node
/// the text of the run.
pub proof fn lemma_run_text_reads_back(run: RunView, frame: Frame, offset: u32)
    ensures
        decode(run_node(run, frame, offset).text) == run.text,
{
    lemma_decode_escape(run.text, Place::Content);
}

/// Builds the node of one run.
fn assemble_run(
    run: &StyledRun,
    default_fill: Rgb,
    positioned: bool,
    offset: u32,
    Ghost(frame): Ghost<Frame>,
) -> (out: RunNode)
    requires
        frame.colors.foreground == default_fill,
        frame.positioned == positioned,
    ensures
        out@ == run_node(run@, frame, offset),
{
    RunNode {
        text: escape_text(run.text.as_str()),
        fill: if run.foreground == default_fill {
            None
        } else {
            Some(run.foreground)
        },
        bold: run.bold,
        italic: run.italic,
        x: if positioned {
            Some(offset)
        } else {
            None
        },
    }
}

/// Builds the node of one line.
fn assemble_line(
    index: usize,
    line: &StyledLine,
    offsets: &Vec<u32>,
    default_fill: Rgb,
    em_multiplier: u32,
    positioned: bool,
    Ghost(frame): Ghost<Frame>,
) -> (out: LineNode)
    requires
        offsets@.len() == line@.len(),
        frame.colors.foreground == default_fill,
        frame.positioned == positioned,
        frame.em_multiplier == em_multiplier,
    ensures
        out@ == line_node(index as nat, line@, frame, offsets@),
{
    let mut runs: Vec<RunNode> = Vec::new();
    let mut k: usize = 0;
    while k < line.runs.len()
        invariant
            k <= line.runs.len(),
            offsets@.len() == line@.len(),
            frame.colors.foreground == default_fill,
            frame.positioned == positioned,
            runs@.len() == k,
            forall|j: int|
                0 <= j < k ==> (#[trigger] runs@[j])@ == run_node(line@[j], frame, offsets@[j]),
        decreases line.runs.len() - k,
    {
        let node = assemble_run(&line.runs[k], default_fill, positioned, offsets[k], Ghost(frame));
        runs.push(node);
        k += 1;
    }
    assert((index as u128 + 1) * (em_multiplier as u128) <= 0x1_0000_0000_0000_0000 * 0xffff_ffff)
        by (nonlinear_arith)
        requires
            0 <= index <= 0xffff_ffff_ffff_ffff,
            0 <= em_multiplier <= 0xffff_ffff,
    ;
    let baseline: u128 = (index as u128 + 1) * (em_multiplier as u128);
    let out = LineNode { baseline, runs };
    assert(out@.runs =~= line_node(index as nat, line@, frame, offsets@).runs);
    out
}

/// Assembles the document of `lines`, which `layout` lays out: one background in the theme's
/// background colour, one group with the font and the theme's foreground colour, and in it
/// one node for each line and each run. A run's text is escaped here, once; its colour is kept
/// only where it differs from the group's.
pub fn assemble(
    lines: &Vec<StyledLine>,
    layout: &Layout,
    colors: ThemeColors,
    font_family: &str,
    font_size: u32,
    em_multiplier: u32,
    positioned: bool,
) -> (out: VectorDocument)
    requires
        layout.fits(lines_view(lines@)),
    ensures
        out@ == document_of(
            lines_view(lines@),
            Frame { colors, font_family: font_family@, font_size, em_multiplier, positioned },
            layout.dimensions,
            layout.offsets(),
        ),
{
    let ghost frame = Frame {
        colors,
        font_family: font_family@,
        font_size,
        em_multiplier,
        positioned,
    };
    let ghost all = lines_view(lines@);
    let mut nodes: Vec<LineNode> = Vec::new();
    let mut i: usize = 0;
    while i < lines.len()
        invariant
            i <= lines.len(),
            all == lines_view(lines@),
            layout.fits(all),
            frame == (Frame {
                colors,
                font_family: font_family@,
                font_size,
                em_multiplier,
                positioned,
            }),
            nodes@.len() == i,
            forall|n: int|
                0 <= n < i ==> (#[trigger] nodes@[n])@ == line_node(
                    n as nat,
                    all[n],
                    frame,
                    layout.offsets()[n],
                ),
        decreases lines.len() - i,
    {
        assert(all[i as int] == lines@[i as int]@);
        assert(layout.lines@[i as int].offsets@.len() == all[i as int].len());
        let node = assemble_line(
            i,
            &lines[i],
            &layout.lines[i].offsets,
            colors.foreground,
            em_multiplier,
            positioned,
            Ghost(frame),
        );
        nodes.push(node);
        i += 1;
    }
    let out = VectorDocument {
        dimensions: layout.dimensions,
        background: colors.background,
        group: Group {
            font_family: String::from_str(font_family),
            font_size,
            fill: colors.foreground,
            lines: nodes,
        },
    };
    let ghost wanted = document_of(all, frame, layout.dimensions, layout.offsets());
    assert(out@.group.lines =~= wanted.group.lines);
    out
}

/// The declared width and height of the document, in whole pixels.
pub fn get_dimensions(doc: &VectorDocument) -> (out: (u32, u32))
    ensures
        out == (doc.dimensions.width, doc.dimensions.height),
{
    (doc.dimensions.width, doc.dimensions.height)
}

/// Declares a new width and height for the document and leaves the rest of it as it is.
pub fn set_dimensions(doc: &mut VectorDocument, width: u32, height: u32)
    ensures
        final(doc)@ == (DocumentView { dimensions: Dimensions { width, height }, ..old(doc)@ }),
{
    doc.dimensions = Dimensions { width, height };
}

} // verus!

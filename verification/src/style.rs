//! Styled text: what the highlighter hands to layout and assembly.

use vstd::prelude::*;
use vstd::string::StringExecFns;
use crate::color::Rgb;

verus! {

/// A span of text in one style. A run never crosses a line boundary.
#[derive(Debug)]
pub struct StyledRun {
    pub text: String,
    pub foreground: Rgb,
    pub bold: bool,
    pub italic: bool,
}

/// The mathematical value of a [`StyledRun`].
pub struct RunView {
    pub text: Seq<char>,
    pub foreground: Rgb,
    pub bold: bool,
    pub italic: bool,
}

impl View for StyledRun {
    type V = RunView;

    open spec fn view(&self) -> RunView {
        RunView {
            text: self.text@,
            foreground: self.foreground,
            bold: self.bold,
            italic: self.italic,
        }
    }
}

/// The runs of one source line, from left to right. An empty line has no runs.
#[derive(Debug)]
pub struct StyledLine {
    pub runs: Vec<StyledRun>,
}

impl View for StyledLine {
    type V = Seq<RunView>;

    open spec fn view(&self) -> Seq<RunView> {
        self.runs@.map_values(|r: StyledRun| r@)
    }
}

/// The mathematical value of a document's lines.
pub open spec fn lines_view(lines: Seq<StyledLine>) -> Seq<Seq<RunView>> {
    lines.map_values(|l: StyledLine| l@)
}

/// The text of a line: the texts of its runs, one after the other.
pub open spec fn line_text(line: Seq<RunView>) -> Seq<char>
    decreases line.len(),
{
    if line.len() == 0 {
        Seq::empty()
    } else {
        line_text(line.drop_last()) + line.last().text
    }
}

/// Does every run of the line hold at least one character?
pub open spec fn runs_nonempty(line: Seq<RunView>) -> bool {
    forall|k: int| 0 <= k < line.len() ==> (#[trigger] line[k]).text.len() > 0
}

impl RunView {
    /// Does the run look exactly like unstyled text in the colour `default_foreground`?
    pub open spec fn is_default(self, default_foreground: Rgb) -> bool {
        self.foreground == default_foreground && !self.bold && !self.italic
    }

    /// Do the two runs share one style?
    pub open spec fn same_style(self, other: RunView) -> bool {
        self.foreground == other.foreground && self.bold == other.bold && self.italic
            == other.italic
    }
}

impl StyledRun {
    /// Does the run look exactly like unstyled text in the colour `default_foreground`?
    pub fn is_default(&self, default_foreground: Rgb) -> (b: bool)
        ensures
            b == self@.is_default(default_foreground),
    {
        self.foreground == default_foreground && !self.bold && !self.italic
    }

    /// Do the two runs share one style?
    pub fn same_style(&self, other: &StyledRun) -> (b: bool)
        ensures
            b == self@.same_style(other@),
    {
        self.foreground == other.foreground && self.bold == other.bold && self.italic
            == other.italic
    }
}

/// Is every run as long as it can be: do no two neighbours share a style?
pub open spec fn is_maximal(line: Seq<RunView>) -> bool {
    forall|k: int| 0 <= k < line.len() - 1 ==> !(#[trigger] line[k]).same_style(line[k + 1])
}

/// The runs with every stretch of neighbours that share a style made one run.
pub open spec fn merged(runs: Seq<RunView>) -> Seq<RunView>
    decreases runs.len(),
{
    if runs.len() == 0 {
        runs
    } else {
        let front = merged(runs.drop_last());
        let last = runs.last();
        if front.len() > 0 && front.last().same_style(last) {
            front.drop_last().push(RunView { text: front.last().text + last.text, ..last })
        } else {
            front.push(last)
        }
    }
}

/// Merging keeps the text of the line and leaves no run empty that was not, and what it
/// gives is maximal.
pub proof fn lemma_merged(runs: Seq<RunView>)
    ensures
        line_text(merged(runs)) == line_text(runs),
        runs_nonempty(runs) ==> runs_nonempty(merged(runs)),
        is_maximal(merged(runs)),
        runs.len() > 0 ==> merged(runs).len() > 0 && merged(runs).last().same_style(runs.last()),
        merged(runs).len() <= runs.len(),
    decreases runs.len(),
{
    if runs.len() > 0 {
        let given = runs.drop_last();
        let front = merged(given);
        let last = runs.last();
        let out = merged(runs);
        lemma_merged(given);
        if runs_nonempty(runs) {
            assert forall|k: int| 0 <= k < given.len() implies (#[trigger] given[k]).text.len()
                > 0 by {
                assert(given[k] == runs[k]);
            }
        }
        if front.len() > 0 && front.last().same_style(last) {
            let joined = RunView { text: front.last().text + last.text, ..last };
            let kept = front.drop_last();
            assert(out == kept.push(joined));
            assert(out.drop_last() == kept);
            assert(line_text(front) == line_text(kept) + front.last().text);
            assert(line_text(out) == line_text(kept) + (front.last().text + last.text));
            assert(line_text(out) == line_text(runs));
            assert forall|k: int| 0 <= k < out.len() - 1 implies !(#[trigger] out[k]).same_style(
                out[k + 1],
            ) by {
                assert(out[k] == front[k]);
                if k + 1 < kept.len() {
                    assert(out[k + 1] == front[k + 1]);
                }
            }
            if runs_nonempty(runs) {
                assert forall|k: int| 0 <= k < out.len() implies (#[trigger] out[k]).text.len()
                    > 0 by {
                    if k < kept.len() {
                        assert(out[k] == front[k]);
                    }
                }
            }
        } else {
            assert(out == front.push(last));
            assert(out.drop_last() == front);
            assert forall|k: int| 0 <= k < out.len() - 1 implies !(#[trigger] out[k]).same_style(
                out[k + 1],
            ) by {
                assert(out[k] == front[k]);
                if k + 1 < front.len() {
                    assert(out[k + 1] == front[k + 1]);
                }
            }
            if runs_nonempty(runs) {
                assert forall|k: int| 0 <= k < out.len() implies (#[trigger] out[k]).text.len()
                    > 0 by {
                    if k < front.len() {
                        assert(out[k] == front[k]);
                    }
                }
            }
        }
    }
}

/// Makes one run of every stretch of neighbours that share a style, so that every run is a
/// longest stretch of text in one style.
pub fn merge_runs(runs: &Vec<StyledRun>) -> (out: Vec<StyledRun>)
    ensures
        out@.map_values(|r: StyledRun| r@) == merged(runs@.map_values(|r: StyledRun| r@)),
{
    let ghost given = runs@.map_values(|r: StyledRun| r@);
    let mut out: Vec<StyledRun> = Vec::new();
    let mut k: usize = 0;
    assert(given.take(0) == Seq::<RunView>::empty());
    assert(out@.map_values(|r: StyledRun| r@) == Seq::<RunView>::empty());
    while k < runs.len()
        invariant
            k <= runs.len(),
            given == runs@.map_values(|r: StyledRun| r@),
            out@.map_values(|r: StyledRun| r@) == merged(given.take(k as int)),
        decreases runs.len() - k,
    {
        let run = &runs[k];
        let ghost front = out@.map_values(|r: StyledRun| r@);
        proof {
            let next = given.take(k + 1);
            assert(next.drop_last() == given.take(k as int));
            assert(next.last() == run@);
        }
        let joins = out.len() > 0 && out[out.len() - 1].same_style(run);
        if joins {
            assert(front.last() == out@[out.len() - 1]@);
            let mut last = out.pop().unwrap();
            assert(out@.map_values(|r: StyledRun| r@) == front.drop_last());
            last.text.append(run.text.as_str());
            out.push(last);
            assert(out@.map_values(|r: StyledRun| r@) == front.drop_last().push(
                RunView { text: front.last().text + run@.text, ..run@ },
            ));
        } else {
            out.push(
                StyledRun {
                    text: String::from_str(run.text.as_str()),
                    foreground: run.foreground,
                    bold: run.bold,
                    italic: run.italic,
                },
            );
            assert(out@.map_values(|r: StyledRun| r@) == front.push(run@));
        }
        k += 1;
    }
    assert(given.take(runs.len() as int) == given);
    out
}

} // verus!

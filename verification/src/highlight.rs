//! The syntax highlighter: from text and a syntax token to one styled line per source line.
//!
//! The tokenizer and the theme engine are syntect's, and the syntaxes are those that syntect
//! ships. The tokenizer's state runs from line to line, so a highlighting is a fold over the
//! lines of the text: each step takes a state and a line, with its line ending, and gives a
//! styled line and the next state. What the tokenizer gives for a line is held against the
//! line before it is accepted: the runs must make up the line, character for character.
//!
//! A text whose syntax token stands for no syntax is plain text. Its styled lines are made
//! here, without the tokenizer: each line is one run in the default style.

use syntect::easy::HighlightLines;
use syntect::highlighting::{FontStyle, Theme};
use syntect::parsing::{SyntaxReference, SyntaxSet};
use vstd::prelude::*;
use vstd::string::StringExecFns;
use crate::color::Rgb;
use crate::document::ThemeColors;
use crate::error::SiaError;
use crate::style::{
    is_maximal, lemma_merged, line_text, lines_view, merge_runs, merged, runs_nonempty, RunView,
    StyledLine, StyledRun,
};
use crate::text::{chars_of, string_of};

verus! {

/// syntect's set of syntax definitions.
#[verifier::external_type_specification]
#[verifier::external_body]
pub struct ExSyntaxSet(SyntaxSet);

/// syntect's reference to one syntax definition of a set.
#[verifier::external_type_specification]
#[verifier::external_body]
pub struct ExSyntaxReference(SyntaxReference);

/// syntect's colour theme.
#[verifier::external_type_specification]
#[verifier::external_body]
pub struct ExTheme(Theme);

/// syntect's line-by-line highlighter, with the state that it carries from line to line.
#[verifier::external_type_specification]
#[verifier::external_body]
pub struct ExHighlightLines<'a>(HighlightLines<'a>);

/// syntect's error.
#[verifier::external_type_specification]
#[verifier::external_body]
pub struct ExSyntectError(syntect::Error);

/// The syntax that `SyntaxSet::find_syntax_by_token` finds in a set for a token, which is a
/// file extension or the name of a syntax; nothing where the set has none for it.
pub uninterp spec fn found_syntax(set: SyntaxSet, token: Seq<char>) -> Option<SyntaxReference>;

/// The highlighter that `HighlightLines::new` makes for a syntax and a theme: the state at
/// the start of a text.
pub uninterp spec fn new_state(syntax: SyntaxReference, theme: Theme) -> HighlightLines<'static>;

/// The pieces that `HighlightLines::highlight_line` gives for a line in a state, each as a
/// run with its text, its foreground colour without the alpha channel, and its bold and
/// italic flags; nothing where it fails. `set` is the set of the highlighter's syntax.
pub uninterp spec fn tokenized(
    state: HighlightLines<'static>,
    set: SyntaxSet,
    line: Seq<char>,
) -> Option<Seq<RunView>>;

/// The state in which `HighlightLines::highlight_line` leaves a highlighter after a line.
pub uninterp spec fn state_after(
    state: HighlightLines<'static>,
    set: SyntaxSet,
    line: Seq<char>,
) -> HighlightLines<'static>;

/// `SyntaxSet::load_defaults_newlines`: the syntax definitions that syntect ships, in the form
/// that reads lines with their line endings. Nothing is claimed of what the set holds.
#[verifier::external_body]
fn default_syntaxes() -> (set: SyntaxSet) {
    SyntaxSet::load_defaults_newlines()
}

/// `SyntaxSet::find_syntax_by_token`: the syntax that a file extension or a syntax name
/// stands for, if the set has one. Which it is, is a matter of the set and the token alone.
#[verifier::external_body]
fn find_syntax_by_token<'a>(set: &'a SyntaxSet, token: &str) -> (found: Option<&'a SyntaxReference>)
    ensures
        match found {
            Some(syntax) => found_syntax(*set, token@) == Some(*syntax),
            None => found_syntax(*set, token@) is None,
        },
{
    set.find_syntax_by_token(token)
}

/// `HighlightLines::new`: a highlighter at the start of a text. Its state is a matter of the
/// syntax and the theme alone.
#[verifier::external_body]
fn new_highlighter<'a>(syntax: &SyntaxReference, theme: &'a Theme) -> (lines: HighlightLines<'a>)
    ensures
        lines == new_state(*syntax, *theme),
{
    HighlightLines::new(syntax, theme)
}

/// syntect's highlighter together with the set of syntaxes in which its syntax was found:
/// the two that `HighlightLines::highlight_line` must be given together.
struct Tokenizer<'a> {
    lines: HighlightLines<'a>,
    syntaxes: &'a SyntaxSet,
}

/// `HighlightLines::highlight_line`: the pieces of one line, each handed on as a run with the
/// text of the piece, the foreground colour of its style without the alpha channel, and
/// whether the font style of its style holds bold and italic. What the pieces are, whether
/// the call fails, and the state it leaves are a matter of the state, the set and the line
/// alone; nothing more is claimed of them.
#[verifier::external_body]
fn highlight_line(tokenizer: &mut Tokenizer<'_>, line: &str) -> (out: Result<
    Vec<StyledRun>,
    syntect::Error,
>)
    ensures
        final(tokenizer).syntaxes == old(tokenizer).syntaxes,
        final(tokenizer).lines == state_after(
            old(tokenizer).lines,
            *old(tokenizer).syntaxes,
            line@,
        ),
        match out {
            Ok(runs) => tokenized(old(tokenizer).lines, *old(tokenizer).syntaxes, line@) == Some(
                runs@.map_values(|r: StyledRun| r@),
            ),
            Err(_) => tokenized(old(tokenizer).lines, *old(tokenizer).syntaxes, line@) is None,
        },
{
    let pieces = tokenizer.lines.highlight_line(line, tokenizer.syntaxes)?;
    Ok(pieces.into_iter().map(|(style, text)| StyledRun {
        text: text.to_string(),
        foreground: Rgb { r: style.foreground.r, g: style.foreground.g, b: style.foreground.b },
        bold: style.font_style.contains(FontStyle::BOLD),
        italic: style.font_style.contains(FontStyle::ITALIC),
    }).collect())
}

/// The words of a syntect error, as its `Display` writes them.
#[verifier::external_body]
fn error_text(e: &syntect::Error) -> (words: String) {
    format!("{}", e)
}

/// The background colour that a theme declares in its settings, without its alpha channel,
/// and nothing for a theme that declares none.
pub uninterp spec fn declared_background(theme: Theme) -> Option<Rgb>;

/// The foreground colour that a theme declares in its settings, without its alpha channel,
/// and nothing for a theme that declares none.
pub uninterp spec fn declared_foreground(theme: Theme) -> Option<Rgb>;

/// The field `settings.background` of a theme: the background colour that it declares, if
/// it declares one. The colour is a matter of the theme alone.
#[verifier::external_body]
fn theme_background(theme: &Theme) -> (color: Option<Rgb>)
    ensures
        color == declared_background(*theme),
{
    theme.settings.background.map(|c| Rgb { r: c.r, g: c.g, b: c.b })
}

/// The field `settings.foreground` of a theme: the foreground colour that it declares, if
/// it declares one. The colour is a matter of the theme alone.
#[verifier::external_body]
fn theme_foreground(theme: &Theme) -> (color: Option<Rgb>)
    ensures
        color == declared_foreground(*theme),
{
    theme.settings.foreground.map(|c| Rgb { r: c.r, g: c.g, b: c.b })
}

/// The syntaxes that a text can be highlighted in: those that syntect ships. No other set
/// is taken, since the tokenizer is safe only on syntaxes that were compiled and checked.
pub struct Syntaxes {
    set: SyntaxSet,
}

impl View for Syntaxes {
    type V = SyntaxSet;

    closed spec fn view(&self) -> SyntaxSet {
        self.set
    }
}

impl Syntaxes {
    /// The syntaxes that syntect ships.
    pub fn load_defaults() -> (out: Syntaxes) {
        Syntaxes { set: default_syntaxes() }
    }

    /// Does `token` stand for one of the syntaxes?
    pub fn knows(&self, token: &str) -> (known: bool)
        ensures
            known == (found_syntax(self@, token@) is Some),
    {
        find_syntax_by_token(&self.set, token).is_some()
    }
}

/// The length of the first line of `s`, its line ending counted.
pub open spec fn first_line_len(s: Seq<char>) -> int
    decreases s.len(),
{
    if s.len() == 0 {
        0
    } else if s[0] == '\n' {
        1
    } else {
        1 + first_line_len(s.drop_first())
    }
}

/// The lines of `s`, each with the line feed that ends it. A text that ends with a line feed
/// has no further line after it, and the empty text has no lines.
pub open spec fn lines_with_endings(s: Seq<char>) -> Seq<Seq<char>>
    decreases s.len(),
{
    if s.len() == 0 {
        Seq::empty()
    } else {
        let n = first_line_len(s);
        if 0 < n <= s.len() {
            seq![s.take(n)] + lines_with_endings(s.skip(n))
        } else {
            Seq::empty()
        }
    }
}

/// `s` without the line feed at its end, if it has one.
pub open spec fn without_newline(s: Seq<char>) -> Seq<char> {
    if s.len() > 0 && s.last() == '\n' {
        s.drop_last()
    } else {
        s
    }
}

/// The first line ends with the first line feed, or with the text.
proof fn lemma_first_line_len(s: Seq<char>, k: int)
    requires
        0 <= k < s.len(),
        forall|j: int| 0 <= j < k ==> s[j] != '\n',
        s[k] == '\n' || k == s.len() - 1,
    ensures
        first_line_len(s) == k + 1,
    decreases s.len(),
{
    if k > 0 {
        let t = s.drop_first();
        assert forall|j: int| 0 <= j < k - 1 implies t[j] != '\n' by {
            assert(t[j] == s[j + 1]);
        }
        assert(t[k - 1] == s[k]);
        assert(s[0] != '\n');
        lemma_first_line_len(t, k - 1);
    } else if s[0] != '\n' {
        assert(s.drop_first().len() == 0);
        assert(first_line_len(s.drop_first()) == 0);
    }
}

/// The lines one after the other.
pub open spec fn joined_lines(lines: Seq<Seq<char>>) -> Seq<char>
    decreases lines.len(),
{
    if lines.len() == 0 {
        Seq::empty()
    } else {
        joined_lines(lines.drop_last()) + lines.last()
    }
}

/// A first line and the lines after it, one after the other, are the first line and then the
/// other lines.
proof fn lemma_joined_lines_front(first: Seq<char>, rest: Seq<Seq<char>>)
    ensures
        joined_lines(seq![first] + rest) == first + joined_lines(rest),
    decreases rest.len(),
{
    let all = seq![first] + rest;
    if rest.len() == 0 {
        assert(all.drop_last() == Seq::<Seq<char>>::empty());
        assert(joined_lines(all) == joined_lines(all.drop_last()) + all.last());
        assert(joined_lines(all) == first + joined_lines(rest));
    } else {
        lemma_joined_lines_front(first, rest.drop_last());
        assert(all.drop_last() == seq![first] + rest.drop_last());
        assert(all.last() == rest.last());
        assert(joined_lines(all) == first + joined_lines(rest));
    }
}

/// Splitting loses nothing: the lines of a text, one after the other, are the text. No line
/// is empty, and a line feed stands only at the end of a line: at the end of every line but
/// the last, which may do without.
pub proof fn lemma_lines_make_up_text(s: Seq<char>)
    ensures
        joined_lines(lines_with_endings(s)) == s,
        forall|i: int|
            0 <= i < lines_with_endings(s).len() ==> (#[trigger] lines_with_endings(s)[i]).len()
                > 0,
        forall|i: int, j: int|
            0 <= i < lines_with_endings(s).len() && 0 <= j < lines_with_endings(s)[i].len() - 1
                ==> #[trigger] lines_with_endings(s)[i][j] != '\n',
        forall|i: int|
            0 <= i < lines_with_endings(s).len() - 1 ==> (#[trigger] lines_with_endings(
                s,
            )[i]).last() == '\n',
    decreases s.len(),
{
    if s.len() > 0 {
        let n = first_line_len(s);
        lemma_first_line_shape(s);
        let first = s.take(n);
        let rest = s.skip(n);
        let lines = lines_with_endings(s);
        let others = lines_with_endings(rest);
        lemma_lines_make_up_text(rest);
        lemma_joined_lines_front(first, others);
        assert(lines == seq![first] + others);
        assert(first + rest == s);
        assert forall|i: int| 0 <= i < lines.len() implies (#[trigger] lines[i]).len() > 0 by {
            if i > 0 {
                assert(lines[i] == others[i - 1]);
            }
        }
        assert forall|i: int, j: int|
            0 <= i < lines.len() && 0 <= j < lines[i].len() - 1 implies #[trigger] lines[i][j]
            != '\n' by {
            if i > 0 {
                assert(lines[i] == others[i - 1]);
            }
        }
        assert forall|i: int| 0 <= i < lines.len() - 1 implies (#[trigger] lines[i]).last()
            == '\n' by {
            if i > 0 {
                assert(lines[i] == others[i - 1]);
            } else {
                assert(others.len() > 0);
                assert(rest.len() > 0);
            }
        }
    }
}

/// The first line of a text that is not empty is not empty and no longer than the text. No
/// line feed stands in it but at its end, and one does stand there unless the text ends with
/// the line.
proof fn lemma_first_line_shape(s: Seq<char>)
    requires
        s.len() > 0,
    ensures
        0 < first_line_len(s) <= s.len(),
        forall|j: int| 0 <= j < first_line_len(s) - 1 ==> s[j] != '\n',
        first_line_len(s) < s.len() ==> s[first_line_len(s) - 1] == '\n',
    decreases s.len(),
{
    if s[0] != '\n' && s.len() > 1 {
        let t = s.drop_first();
        lemma_first_line_shape(t);
        assert forall|j: int| 0 <= j < first_line_len(s) - 1 implies s[j] != '\n' by {
            if j > 0 {
                assert(s[j] == t[j - 1]);
            }
        }
        if first_line_len(s) < s.len() {
            assert(s[first_line_len(s) - 1] == t[first_line_len(t) - 1]);
        }
    } else if s[0] != '\n' {
        assert(s.drop_first().len() == 0);
        assert(first_line_len(s.drop_first()) == 0);
    }
}

/// Do the runs make up the line: no run empty, and their texts, one after the other, the
/// text of the line?
pub open spec fn covers(line: Seq<char>, runs: Seq<RunView>) -> bool {
    runs_nonempty(runs) && line_text(runs) == line
}

/// The runs without the line feed at the end of the last one; a run that held nothing else
/// is left out.
pub open spec fn trim_newline(runs: Seq<RunView>) -> Seq<RunView> {
    if runs.len() > 0 && runs.last().text.len() > 0 && runs.last().text.last() == '\n' {
        let last = runs.last();
        if last.text.len() == 1 {
            runs.drop_last()
        } else {
            runs.drop_last().push(RunView { text: last.text.drop_last(), ..last })
        }
    } else {
        runs
    }
}

/// Are the runs a styling of the line: do they make up the line, each as long a stretch in
/// one style as there is?
pub open spec fn is_styling_of(line: Seq<char>, runs: Seq<RunView>) -> bool {
    covers(line, runs) && is_maximal(runs)
}

/// Is `lines` a highlighting of `text`: one styled line for each line of the text, whose runs
/// are a styling of the line without its line feed?
pub open spec fn is_highlighting_of(text: Seq<char>, lines: Seq<Seq<RunView>>) -> bool {
    &&& lines.len() == lines_with_endings(text).len()
    &&& forall|i: int|
        0 <= i < lines.len() ==> is_styling_of(
            without_newline(lines_with_endings(text)[i]),
            #[trigger] lines[i],
        )
}

/// The text of the first runs of a line is the start of the text of the line.
proof fn lemma_line_text_prefix(runs: Seq<RunView>, k: int)
    requires
        0 <= k <= runs.len(),
    ensures
        line_text(runs.take(k)).len() <= line_text(runs).len(),
        line_text(runs).take(line_text(runs.take(k)).len() as int) == line_text(runs.take(k)),
        k < runs.len() ==> line_text(runs.take(k + 1)) == line_text(runs.take(k)) + runs[k].text,
    decreases runs.len() - k,
{
    if k == runs.len() {
        assert(runs.take(k) == runs);
        assert(line_text(runs).take(line_text(runs).len() as int) == line_text(runs));
    } else {
        assert(runs.take(k + 1).drop_last() == runs.take(k));
        lemma_line_text_prefix(runs, k + 1);
        let a = line_text(runs.take(k));
        let b = line_text(runs.take(k + 1));
        let all = line_text(runs);
        assert(b == a + runs[k].text);
        assert(all.take(b.len() as int) == b);
        assert(all.take(a.len() as int) == b.take(a.len() as int));
        assert(b.take(a.len() as int) == a);
    }
}

/// Runs that make up a line make up, once trimmed, the line without its line feed.
proof fn lemma_trim_newline_covers(line: Seq<char>, runs: Seq<RunView>)
    requires
        covers(line, runs),
    ensures
        covers(without_newline(line), trim_newline(runs)),
{
    if runs.len() > 0 {
        let last = runs.last();
        let front = runs.drop_last();
        assert(line == line_text(front) + last.text);
        assert(last.text.len() > 0);
        assert(line.last() == last.text.last());
        if last.text.last() == '\n' {
            let cut = last.text.drop_last();
            assert(line.drop_last() == line_text(front) + cut);
            if cut.len() == 0 {
                assert(line_text(front) + cut == line_text(front));
                assert forall|k: int| 0 <= k < front.len() implies (#[trigger] front[k]).text.len()
                    > 0 by {
                    assert(front[k] == runs[k]);
                }
            } else {
                let trimmed = front.push(RunView { text: cut, ..last });
                assert(trimmed.drop_last() == front);
                assert forall|k: int| 0 <= k < trimmed.len() implies (#[trigger] trimmed[k]).text
                    .len() > 0 by {
                    if k < front.len() {
                        assert(trimmed[k] == runs[k]);
                    }
                }
            }
        }
    }
}

/// The lines of `text`, each with the line feed that ends it.
pub fn split_lines(text: &str) -> (out: Vec<String>)
    ensures
        out@.map_values(|l: String| l@) == lines_with_endings(text@),
{
    let chars = chars_of(text);
    let mut out: Vec<String> = Vec::new();
    let mut start: usize = 0;
    let mut i: usize = 0;
    assert(chars@.skip(0) == chars@);
    while i < chars.len()
        invariant
            start <= i <= chars.len(),
            i == chars.len() ==> start == i,
            chars@ == text@,
            forall|j: int| start <= j < i ==> chars@[j] != '\n',
            out@.map_values(|l: String| l@) + lines_with_endings(chars@.skip(start as int))
                == lines_with_endings(chars@),
        decreases chars.len() - i,
    {
        if chars[i] == '\n' || i + 1 == chars.len() {
            let line = string_of(&chars, start, i + 1);
            proof {
                let rest = chars@.skip(start as int);
                lemma_first_line_len(rest, i - start);
                assert(rest.take(i - start + 1) == chars@.subrange(start as int, i + 1));
                assert(rest.skip(i - start + 1) == chars@.skip(i + 1));
                let before = out@.map_values(|l: String| l@);
                assert(out@.push(line).map_values(|l: String| l@) == before + seq![line@]);
                assert(before + seq![line@] + lines_with_endings(chars@.skip(i + 1)) == before + (
                    seq![line@] + lines_with_endings(chars@.skip(i + 1))));
            }
            out.push(line);
            start = i + 1;
        }
        i += 1;
    }
    proof {
        assert(chars@.skip(start as int).len() == 0);
        let before = out@.map_values(|l: String| l@);
        assert(before + Seq::<Seq<char>>::empty() == before);
    }
    out
}

/// The two colours that a render needs of a theme. A theme that declares no background or no
/// foreground colour is refused: no colour is made up in its place.
pub fn required_colors(background: Option<Rgb>, foreground: Option<Rgb>) -> (out: Result<
    ThemeColors,
    SiaError,
>)
    ensures
        match out {
            Ok(colors) => background == Some(colors.background) && foreground == Some(
                colors.foreground,
            ),
            Err(e) => if background is None {
                e.is_invalid_config("theme background"@)
            } else {
                foreground is None && e.is_invalid_config("theme foreground"@)
            },
        },
{
    match background {
        None => Err(SiaError::invalid_config("theme background")),
        Some(background) => match foreground {
            None => Err(SiaError::invalid_config("theme foreground")),
            Some(foreground) => Ok(ThemeColors { background, foreground }),
        },
    }
}

/// The default colours of `theme`: the background and the foreground colour that the theme
/// declares. A theme that declares no background, or else no foreground, is refused, as
/// [`required_colors`] refuses it.
pub fn theme_colors(theme: &Theme) -> (out: Result<ThemeColors, SiaError>)
    ensures
        match out {
            Ok(colors) => {
                &&& declared_background(*theme) == Some(colors.background)
                &&& declared_foreground(*theme) == Some(colors.foreground)
            },
            Err(e) => if declared_background(*theme) is None {
                e.is_invalid_config("theme background"@)
            } else {
                declared_foreground(*theme) is None && e.is_invalid_config("theme foreground"@)
            },
        },
{
    required_colors(theme_background(theme), theme_foreground(theme))
}

/// Accepts the runs that the highlighter gave for `line`, which is a line with its line
/// ending. They are accepted where they make up the line; the line feed at the end is then
/// taken off the last run, the run is left out if nothing else was in it, and neighbours
/// that share a style are made one run.
pub fn styled_line(line: &str, runs: Vec<StyledRun>) -> (out: Result<StyledLine, SiaError>)
    ensures
        match out {
            Ok(styled) => {
                &&& covers(line@, runs@.map_values(|r: StyledRun| r@))
                &&& styled@ == merged(trim_newline(runs@.map_values(|r: StyledRun| r@)))
                &&& is_styling_of(without_newline(line@), styled@)
            },
            Err(e) => {
                &&& !covers(line@, runs@.map_values(|r: StyledRun| r@))
                &&& e matches SiaError::Parse(d)
                &&& d@ == "highlighted runs do not make up the line"@
            },
        },
{
    let ghost given = runs@.map_values(|r: StyledRun| r@);
    let chars = chars_of(line);
    let mut pos: usize = 0;
    let mut k: usize = 0;
    let mut last_len: usize = 0;
    while k < runs.len()
        invariant
            k <= runs.len(),
            pos <= chars.len(),
            chars@ == line@,
            given == runs@.map_values(|r: StyledRun| r@),
            line_text(given.take(k as int)) == chars@.take(pos as int),
            forall|j: int| 0 <= j < k ==> (#[trigger] given[j]).text.len() > 0,
            k > 0 ==> last_len == given[k - 1].text.len(),
        decreases runs.len() - k,
    {
        let piece = chars_of(runs[k].text.as_str());
        proof {
            lemma_line_text_prefix(given, k as int);
            lemma_line_text_prefix(given, k + 1);
            assert(given[k as int].text == piece@);
        }
        if piece.len() == 0 {
            return Err(
                SiaError::Parse(String::from_str("highlighted runs do not make up the line")),
            );
        }
        if piece.len() > chars.len() - pos {
            return Err(
                SiaError::Parse(String::from_str("highlighted runs do not make up the line")),
            );
        }
        let ghost so_far = line_text(given.take(k + 1));
        assert(so_far == chars@.take(pos as int) + piece@);
        let mut j: usize = 0;
        while j < piece.len()
            invariant
                j <= piece.len(),
                pos + piece.len() <= chars.len(),
                chars@ == line@,
                given == runs@.map_values(|r: StyledRun| r@),
                so_far == chars@.take(pos as int) + piece@,
                so_far.len() <= line_text(given).len(),
                line_text(given).take(so_far.len() as int) == so_far,
                forall|n: int| 0 <= n < j ==> piece@[n] == chars@[pos + n],
            decreases piece.len() - j,
        {
            if piece[j] != chars[pos + j] {
                proof {
                    assert(so_far[pos + j] == piece@[j as int]);
                    assert(line_text(given).take(so_far.len() as int)[pos + j] == line_text(
                        given,
                    )[pos + j]);
                    assert(line_text(given)[pos + j] != line@[pos + j]);
                }
                return Err(
                    SiaError::Parse(String::from_str("highlighted runs do not make up the line")),
                );
            }
            j += 1;
        }
        proof {
            assert(chars@.take(pos + piece.len()) == chars@.take(pos as int) + piece@);
        }
        last_len = piece.len();
        pos = pos + piece.len();
        k += 1;
    }
    proof {
        assert(given.take(runs.len() as int) == given);
    }
    if pos != chars.len() {
        return Err(SiaError::Parse(String::from_str("highlighted runs do not make up the line")));
    }
    proof {
        assert(chars@.take(pos as int) == chars@);
        lemma_trim_newline_covers(line@, given);
    }
    let mut runs = runs;
    if chars.len() > 0 && chars[chars.len() - 1] == '\n' {
        assert(given.len() > 0);
        assert(given.last().text.last() == '\n') by {
            assert(line_text(given) == line_text(given.drop_last()) + given.last().text);
        }
        let last = runs.pop().unwrap();
        assert(last@ == given.last());
        assert(runs@.map_values(|r: StyledRun| r@) == given.drop_last());
        if last_len > 1 {
            let piece = chars_of(last.text.as_str());
            let cut = StyledRun {
                text: string_of(&piece, 0, piece.len() - 1),
                foreground: last.foreground,
                bold: last.bold,
                italic: last.italic,
            };
            assert(cut.text@ == last.text@.drop_last());
            runs.push(cut);
        }
    } else {
        assert(trim_newline(given) == given) by {
            if given.len() > 0 {
                assert(line_text(given) == line_text(given.drop_last()) + given.last().text);
            }
        }
    }
    assert(runs@.map_values(|r: StyledRun| r@) == trim_newline(given));
    proof {
        lemma_merged(trim_newline(given));
    }
    Ok(StyledLine { runs: merge_runs(&runs) })
}

/// The styled line of a line of plain text, which is a line with its line ending: the line
/// without its line feed as one run in the default colour and without any font style, and no
/// run where nothing is left of the line.
pub open spec fn plain_line(line: Seq<char>, foreground: Rgb) -> Seq<RunView> {
    let text = without_newline(line);
    if text.len() == 0 {
        Seq::empty()
    } else {
        seq![RunView { text, foreground, bold: false, italic: false }]
    }
}

/// The highlighting of a text as plain text: the styled line of each of its lines.
pub open spec fn plain_highlighting(text: Seq<char>, foreground: Rgb) -> Seq<Seq<RunView>> {
    lines_with_endings(text).map_values(|line: Seq<char>| plain_line(line, foreground))
}

/// The highlighting of a text as plain text is a highlighting of the text, and every run of
/// it is in the default style.
pub proof fn lemma_plain_highlighting(text: Seq<char>, foreground: Rgb)
    ensures
        is_highlighting_of(text, plain_highlighting(text, foreground)),
        forall|i: int, k: int|
            0 <= i < plain_highlighting(text, foreground).len() && 0 <= k < plain_highlighting(
                text,
                foreground,
            )[i].len() ==> (#[trigger] plain_highlighting(text, foreground)[i][k]).is_default(
                foreground,
            ),
{
    let lines = lines_with_endings(text);
    let styled = plain_highlighting(text, foreground);
    assert forall|i: int| 0 <= i < styled.len() implies is_styling_of(
        without_newline(lines[i]),
        #[trigger] styled[i],
    ) by {
        lemma_plain_line(lines[i], foreground);
    }
}

/// The styled line of a line of plain text is a styling of the line.
proof fn lemma_plain_line(line: Seq<char>, foreground: Rgb)
    ensures
        is_styling_of(without_newline(line), plain_line(line, foreground)),
{
    let runs = plain_line(line, foreground);
    if runs.len() > 0 {
        assert(runs.drop_last().len() == 0);
        assert(line_text(runs) == line_text(runs.drop_last()) + runs.last().text);
        assert(line_text(runs) =~= without_newline(line));
    } else {
        assert(line_text(runs) =~= without_newline(line));
    }
}

/// The styled line of a line of plain text.
pub fn plain_styled_line(line: &str, foreground: Rgb) -> (out: StyledLine)
    ensures
        out@ == plain_line(line@, foreground),
{
    let chars = chars_of(line);
    let mut end: usize = chars.len();
    if end > 0 && chars[end - 1] == '\n' {
        end = end - 1;
    }
    assert(chars@.subrange(0, end as int) == without_newline(line@));
    let mut runs: Vec<StyledRun> = Vec::new();
    if end > 0 {
        runs.push(
            StyledRun { text: string_of(&chars, 0, end), foreground, bold: false, italic: false },
        );
    }
    let out = StyledLine { runs };
    assert(out@ == plain_line(line@, foreground));
    out
}

/// What a highlighter is at: plain text in a colour, or a state of the tokenizer with the
/// set of its syntax.
pub enum HighlighterView {
    Plain { foreground: Rgb },
    Tokenizing { state: HighlightLines<'static>, set: SyntaxSet },
}

/// The highlighter at the start of a text in the syntax that `token` stands for in `set`;
/// the highlighter of plain text where it stands for none.
pub open spec fn start_of(
    set: SyntaxSet,
    theme: Theme,
    foreground: Rgb,
    token: Seq<char>,
) -> HighlighterView {
    match found_syntax(set, token) {
        Some(syntax) => HighlighterView::Tokenizing { state: new_state(syntax, theme), set },
        None => HighlighterView::Plain { foreground },
    }
}

/// The styled line that a highlighter gives for a line, which is a line with its line
/// ending. Plain text is one run. What the tokenizer gives is taken where it makes up the
/// line, without the line feed at its end and with neighbours of one style made one run.
/// Nothing is given where the tokenizer fails or its runs do not make up the line.
pub open spec fn styled_by(h: HighlighterView, line: Seq<char>) -> Option<Seq<RunView>> {
    match h {
        HighlighterView::Plain { foreground } => Some(plain_line(line, foreground)),
        HighlighterView::Tokenizing { state, set } => match tokenized(state, set, line) {
            Some(runs) => if covers(line, runs) {
                Some(merged(trim_newline(runs)))
            } else {
                None
            },
            None => None,
        },
    }
}

/// The highlighter after a line.
pub open spec fn after_line(h: HighlighterView, line: Seq<char>) -> HighlighterView {
    match h {
        HighlighterView::Plain { foreground } => h,
        HighlighterView::Tokenizing { state, set } => HighlighterView::Tokenizing {
            state: state_after(state, set, line),
            set,
        },
    }
}

/// The styled lines that a highlighter gives for lines, one after the other: the fold of
/// [`styled_by`] and [`after_line`] over the lines. Nothing is given where a line is refused.
pub open spec fn highlighted_from(h: HighlighterView, lines: Seq<Seq<char>>) -> Option<
    Seq<Seq<RunView>>,
>
    decreases lines.len(),
{
    if lines.len() == 0 {
        Some(Seq::empty())
    } else {
        match styled_by(h, lines[0]) {
            None => None,
            Some(styled) => match highlighted_from(after_line(h, lines[0]), lines.drop_first()) {
                None => None,
                Some(rest) => Some(seq![styled] + rest),
            },
        }
    }
}

/// The highlighting of `text` in the syntax that `token` stands for in `set`, with the
/// colours of `theme`, and as plain text in the colour `foreground` where the token stands
/// for no syntax. Nothing is given where the tokenizer refuses a line.
pub open spec fn highlighting(
    set: SyntaxSet,
    theme: Theme,
    foreground: Rgb,
    text: Seq<char>,
    token: Seq<char>,
) -> Option<Seq<Seq<RunView>>> {
    highlighted_from(start_of(set, theme, foreground, token), lines_with_endings(text))
}

/// What a highlighter gives for lines is one styled line for each of them, which is a
/// styling of the line without its line feed; and a highlighter of plain text refuses none.
pub proof fn lemma_highlighted_from(h: HighlighterView, lines: Seq<Seq<char>>)
    ensures
        highlighted_from(h, lines) matches Some(styled) ==> {
            &&& styled.len() == lines.len()
            &&& forall|i: int|
                0 <= i < lines.len() ==> is_styling_of(
                    without_newline(lines[i]),
                    #[trigger] styled[i],
                )
        },
        h matches HighlighterView::Plain { foreground } ==> highlighted_from(h, lines) == Some(
            lines.map_values(|line: Seq<char>| plain_line(line, foreground)),
        ),
        lines.len() == 0 ==> highlighted_from(h, lines) == Some(Seq::<Seq<RunView>>::empty()),
    decreases lines.len(),
{
    if lines.len() > 0 {
        let rest = lines.drop_first();
        let next = after_line(h, lines[0]);
        lemma_highlighted_from(next, rest);
        if let HighlighterView::Plain { foreground } = h {
            lemma_plain_line(lines[0], foreground);
            let wanted = lines.map_values(|line: Seq<char>| plain_line(line, foreground));
            let wanted_rest = rest.map_values(|line: Seq<char>| plain_line(line, foreground));
            assert(wanted =~= seq![plain_line(lines[0], foreground)] + wanted_rest);
        }
        if let Some(styled) = highlighted_from(h, lines) {
            let first = styled_by(h, lines[0]).unwrap();
            let others = highlighted_from(next, rest).unwrap();
            assert(styled == seq![first] + others);
            if let HighlighterView::Tokenizing { state, set } = h {
                let runs = tokenized(state, set, lines[0]).unwrap();
                lemma_trim_newline_covers(lines[0], runs);
                lemma_merged(trim_newline(runs));
            }
            assert forall|i: int| 0 <= i < lines.len() implies is_styling_of(
                without_newline(lines[i]),
                #[trigger] styled[i],
            ) by {
                if i > 0 {
                    assert(styled[i] == others[i - 1]);
                    assert(lines[i] == rest[i - 1]);
                }
            }
        }
    }
}

/// A highlighter in the middle of a text: syntect's tokenizer, or none for plain text.
pub struct LineHighlighter<'a> {
    tokenizer: Option<Tokenizer<'a>>,
    foreground: Rgb,
}

impl<'a> View for LineHighlighter<'a> {
    type V = HighlighterView;

    closed spec fn view(&self) -> HighlighterView {
        match self.tokenizer {
            Some(tokenizer) => HighlighterView::Tokenizing {
                state: tokenizer.lines,
                set: *tokenizer.syntaxes,
            },
            None => HighlighterView::Plain { foreground: self.foreground },
        }
    }
}

impl<'a> LineHighlighter<'a> {
    /// A highlighter for the syntax that `token` stands for in `syntaxes`. A token that
    /// stands for none is no error: the text is then taken for plain text, in the colour
    /// `foreground`.
    pub fn start(syntaxes: &'a Syntaxes, theme: &'a Theme, foreground: Rgb, token: &str) -> (out:
        LineHighlighter<'a>)
        ensures
            out@ == start_of(syntaxes@, *theme, foreground, token@),
    {
        let tokenizer = match find_syntax_by_token(&syntaxes.set, token) {
            Some(syntax) => Some(
                Tokenizer { lines: new_highlighter(syntax, theme), syntaxes: &syntaxes.set },
            ),
            None => None,
        };
        LineHighlighter { tokenizer, foreground }
    }

    /// Highlights the next line of the text, which is handed over with its line ending, and
    /// moves on to the state after it. A line of plain text is one run in the default style.
    /// Of any other line, what the tokenizer gives is accepted by [`styled_line`]; where it
    /// fails, or gives runs that do not make up the line, the line is refused.
    pub fn next_line(&mut self, line: &str) -> (out: Result<StyledLine, SiaError>)
        ensures
            final(self)@ == after_line(old(self)@, line@),
            match out {
                Ok(styled) => {
                    &&& styled_by(old(self)@, line@) == Some(styled@)
                    &&& is_styling_of(without_newline(line@), styled@)
                },
                Err(e) => styled_by(old(self)@, line@) is None && e is Parse,
            },
    {
        let given = match &mut self.tokenizer {
            None => {
                proof {
                    lemma_plain_line(line@, self.foreground);
                }
                return Ok(plain_styled_line(line, self.foreground));
            },
            Some(tokenizer) => highlight_line(tokenizer, line),
        };
        match given {
            Ok(runs) => styled_line(line, runs),
            Err(e) => Err(SiaError::Parse(error_text(&e))),
        }
    }
}

/// Highlights `text` in the syntax that `token` stands for in `syntaxes`, with the colours
/// of `theme`: one styled line for each line of the text, in order, highlighted one after
/// the other by one highlighter whose state runs from line to line.
///
/// A token that stands for no syntax is no error: the text is then plain text, each line of
/// it one run in the colour `foreground` and without any font style. The empty text has no
/// lines and is never refused.
pub fn highlight(
    syntaxes: &Syntaxes,
    theme: &Theme,
    foreground: Rgb,
    text: &str,
    token: &str,
) -> (out: Result<Vec<StyledLine>, SiaError>)
    ensures
        match out {
            Ok(lines) => {
                &&& highlighting(syntaxes@, *theme, foreground, text@, token@) == Some(
                    lines_view(lines@),
                )
                &&& is_highlighting_of(text@, lines_view(lines@))
            },
            Err(e) => {
                &&& highlighting(syntaxes@, *theme, foreground, text@, token@) is None
                &&& e is Parse
            },
        },
        found_syntax(syntaxes@, token@) is None ==> out is Ok && lines_view(out->Ok_0@)
            == plain_highlighting(text@, foreground),
        text@.len() == 0 ==> out is Ok && out->Ok_0@.len() == 0,
{
    let source = split_lines(text);
    let ghost wanted = lines_with_endings(text@);
    let mut out: Vec<StyledLine> = Vec::new();
    let mut highlighter = LineHighlighter::start(syntaxes, theme, foreground, token);
    let ghost first = highlighter@;
    assert(source@.map_values(|l: String| l@).len() == source@.len());
    assert(wanted.skip(0) == wanted);
    assert(lines_view(out@) == Seq::<Seq<RunView>>::empty());
    let mut i: usize = 0;
    while i < source.len()
        invariant
            i <= source.len(),
            wanted == lines_with_endings(text@),
            first == start_of(syntaxes@, *theme, foreground, token@),
            source@.map_values(|l: String| l@) == wanted,
            out@.len() == i,
            highlighted_from(first, wanted) == match highlighted_from(
                highlighter@,
                wanted.skip(i as int),
            ) {
                Some(rest) => Some(lines_view(out@) + rest),
                None => None::<Seq<Seq<RunView>>>,
            },
        decreases source.len() - i,
    {
        let ghost before = highlighter@;
        let ghost remaining = wanted.skip(i as int);
        let ghost done = lines_view(out@);
        proof {
            assert(source@.map_values(|l: String| l@)[i as int] == source@[i as int]@);
            assert(remaining[0] == wanted[i as int]);
            assert(remaining.drop_first() == wanted.skip(i + 1));
        }
        match highlighter.next_line(source[i].as_str()) {
            Ok(styled) => {
                proof {
                    let after = highlighted_from(highlighter@, wanted.skip(i + 1));
                    assert(lines_view(out@.push(styled)) == done + seq![styled@]);
                    if let Some(rest) = after {
                        assert(done + (seq![styled@] + rest) == done + seq![styled@] + rest);
                    }
                }
                out.push(styled);
            },
            Err(e) => {
                proof {
                    lemma_highlighted_from(first, wanted);
                    lemma_lines_empty(text@);
                }
                return Err(e);
            },
        }
        i += 1;
    }
    proof {
        assert(wanted.skip(source.len() as int).len() == 0);
        assert(lines_view(out@) + Seq::<Seq<RunView>>::empty() == lines_view(out@));
        lemma_highlighted_from(first, wanted);
        lemma_lines_empty(text@);
        let got = lines_view(out@);
        assert forall|n: int| 0 <= n < got.len() implies is_styling_of(
            without_newline(wanted[n]),
            #[trigger] got[n],
        ) by {}
    }
    Ok(out)
}

/// A text that is not empty and holds no line feed but, at most, one at its end is one line.
pub proof fn lemma_one_line(text: Seq<char>)
    requires
        text.len() > 0,
        forall|j: int| 0 <= j < text.len() - 1 ==> text[j] != '\n',
    ensures
        lines_with_endings(text) == seq![text],
{
    lemma_first_line_len(text, text.len() - 1);
    let rest = text.skip(text.len() as int);
    assert(text.take(text.len() as int) == text);
    assert(rest.len() == 0);
    assert(lines_with_endings(rest) == Seq::<Seq<char>>::empty());
    assert(lines_with_endings(text) == seq![text] + lines_with_endings(rest));
    assert(seq![text] + Seq::<Seq<char>>::empty() == seq![text]);
}

/// The empty text has no lines; any other text has some.
pub proof fn lemma_lines_empty(text: Seq<char>)
    ensures
        text.len() == 0 <==> lines_with_endings(text).len() == 0,
{
    if text.len() > 0 {
        lemma_first_line_shape(text);
    }
}

} // verus!

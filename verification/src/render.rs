//! A whole render: from text, theme and font to the vector document and its markup.

use syntect::highlighting::Theme;
use syntect::parsing::SyntaxSet;
use vstd::prelude::*;
use crate::dimensions::Dimensions;
use crate::document::{assemble, document_of, DocumentView, Frame, ThemeColors, VectorDocument};
use crate::error::SiaError;
use crate::escape::escape;
use crate::highlight::{
    declared_background, declared_foreground, found_syntax, highlight, highlighting,
    joined_lines, lemma_highlighted_from, lemma_lines_empty, lemma_lines_make_up_text,
    lines_with_endings, plain_highlighting, plain_line, start_of, theme_colors, without_newline,
    Syntaxes,
};
use crate::layout::{
    canvas_height, canvas_size, layout, lemma_canvas_height_formula, lemma_max_line_width_bounds,
    line_width, max_line_width, px_ceil, run_offset,
};
use crate::markup::document_markup;
use crate::metrics::{FontMetrics, MetricsView, WidthMode};
use crate::source::SourceDocument;
use crate::style::{lines_view, RunView, StyledLine};

verus! {

/// The font that the text is set in.
pub struct FontConfig {
    /// The name of the font family, as the document declares it.
    pub family: String,
    /// The font size in hundredths of a pixel.
    pub size: u32,
    /// The metrics of the font at that size.
    pub metrics: FontMetrics,
}

/// What a caller may choose about a render.
#[derive(Clone, Copy, Debug, PartialEq, Eq, Structural)]
pub struct RenderOptions {
    /// Explicit dimensions of the canvas. Where they are given, they are used as they are,
    /// both of them, and the canvas is not measured.
    pub explicit_size: Option<Dimensions>,
    /// How widths are taken from the font metrics.
    pub width_mode: WidthMode,
    /// The distance between baselines in hundredths of an em.
    pub em_multiplier: u32,
    /// Is each run given its own horizontal offset in the document?
    pub positioned_runs: bool,
}

impl Default for RenderOptions {
    /// No explicit dimensions, exact widths, baselines 1.2 em apart, and runs that follow one
    /// another in the flow of the text.
    fn default() -> (options: RenderOptions)
        ensures
            options == (RenderOptions {
                explicit_size: None,
                width_mode: WidthMode::Exact,
                em_multiplier: 120,
                positioned_runs: false,
            }),
    {
        RenderOptions {
            explicit_size: None,
            width_mode: WidthMode::Exact,
            em_multiplier: 120,
            positioned_runs: false,
        }
    }
}

/// Can the lines be laid out: is no line wider than 32 bits can say and, where the canvas
/// is measured, does its height fit in 32 bits?
pub open spec fn can_lay_out(
    lines: Seq<Seq<RunView>>,
    m: MetricsView,
    options: RenderOptions,
) -> bool {
    &&& max_line_width(m, options.width_mode, lines) <= u32::MAX
    &&& options.explicit_size is None ==> canvas_height(m, lines.len()) <= u32::MAX
}

/// The offset of every run of every line.
pub open spec fn offsets_of(
    lines: Seq<Seq<RunView>>,
    m: MetricsView,
    mode: WidthMode,
) -> Seq<Seq<u32>> {
    Seq::new(
        lines.len(),
        |i: int| Seq::new(lines[i].len(), |k: int| run_offset(m, mode, lines[i], k) as u32),
    )
}

/// The document that the styled lines compose to, in the colours of a theme and set in a
/// font.
pub open spec fn composed(
    lines: Seq<Seq<RunView>>,
    colors: ThemeColors,
    font_family: Seq<char>,
    font_size: u32,
    m: MetricsView,
    options: RenderOptions,
) -> DocumentView {
    let size = canvas_size(options.explicit_size, m, options.width_mode, lines);
    document_of(
        lines,
        Frame {
            colors,
            font_family,
            font_size,
            em_multiplier: options.em_multiplier,
            positioned: options.positioned_runs,
        },
        Dimensions { width: size.0 as u32, height: size.1 as u32 },
        offsets_of(lines, m, options.width_mode),
    )
}

/// Is `markup` the serialised render of the lines?
pub open spec fn is_render_of(
    lines: Seq<Seq<RunView>>,
    colors: ThemeColors,
    font_family: Seq<char>,
    font_size: u32,
    m: MetricsView,
    options: RenderOptions,
    markup: Seq<char>,
) -> bool {
    &&& can_lay_out(lines, m, options)
    &&& markup == document_markup(composed(lines, colors, font_family, font_size, m, options))
}

/// Determinism: two renders of the same styled lines in the same colours, font and options
/// give the same markup, character for character.
pub proof fn lemma_render_deterministic(
    lines: Seq<Seq<RunView>>,
    colors: ThemeColors,
    font_family: Seq<char>,
    font_size: u32,
    m: MetricsView,
    options: RenderOptions,
    first: Seq<char>,
    second: Seq<char>,
)
    requires
        is_render_of(lines, colors, font_family, font_size, m, options, first),
        is_render_of(lines, colors, font_family, font_size, m, options, second),
    ensures
        first == second,
{
}

/// Lays the styled lines out and assembles their document.
pub fn compose(
    lines: &Vec<StyledLine>,
    colors: ThemeColors,
    font: &FontConfig,
    options: &RenderOptions,
) -> (out: Result<VectorDocument, SiaError>)
    ensures
        is_outcome(
            out,
            composing(lines_view(lines@), colors, font.family@, font.size, font.metrics@, *options),
        ),
        match out {
            Ok(doc) => {
                &&& can_lay_out(lines_view(lines@), font.metrics@, *options)
                &&& doc@ == composed(
                    lines_view(lines@),
                    colors,
                    font.family@,
                    font.size,
                    font.metrics@,
                    *options,
                )
            },
            Err(e) => {
                &&& !can_lay_out(lines_view(lines@), font.metrics@, *options)
                &&& if max_line_width(font.metrics@, options.width_mode, lines_view(lines@))
                    > u32::MAX {
                    e.is_invalid_config("canvas width"@)
                } else {
                    e.is_invalid_config("canvas height"@)
                }
            },
        },
{
    let ghost all = lines_view(lines@);
    let ghost m = font.metrics@;
    match layout(lines, &font.metrics, options.width_mode, options.explicit_size) {
        Ok(l) => {
            let doc = assemble(
                lines,
                &l,
                colors,
                font.family.as_str(),
                font.size,
                options.em_multiplier,
                options.positioned_runs,
            );
            proof {
                let wanted = offsets_of(all, m, options.width_mode);
                let got = l.offsets();
                assert(got.len() == wanted.len());
                assert forall|i: int| 0 <= i < got.len() implies got[i] =~= wanted[i] by {
                    assert(got[i] == l.lines@[i].offsets@);
                    assert(l.lines@[i].is_layout_of(m, options.width_mode, all[i]));
                }
                assert(got =~= wanted);
                lemma_max_line_width_bounds(m, options.width_mode, all);
                if all.len() > 0 {
                    let widest = choose|i: int|
                        0 <= i < all.len() && line_width(m, options.width_mode, #[trigger] all[i])
                            == max_line_width(m, options.width_mode, all);
                    assert(l.lines@[widest].is_layout_of(m, options.width_mode, all[widest]));
                }
            }
            Ok(doc)
        },
        Err(e) => Err(e),
    }
}

/// Renders styled lines to markup.
pub fn render_lines(
    lines: &Vec<StyledLine>,
    colors: ThemeColors,
    font: &FontConfig,
    options: &RenderOptions,
) -> (out: Result<String, SiaError>)
    ensures
        match out {
            Ok(markup) => is_render_of(
                lines_view(lines@),
                colors,
                font.family@,
                font.size,
                font.metrics@,
                *options,
                markup@,
            ),
            Err(e) => {
                &&& !can_lay_out(lines_view(lines@), font.metrics@, *options)
                &&& e is InvalidConfig
            },
        },
{
    match compose(lines, colors, font, options) {
        Ok(doc) => Ok(doc.to_markup()),
        Err(e) => Err(e),
    }
}

/// Why a render is refused.
pub enum Refusal {
    /// The theme declares no background colour.
    ThemeBackground,
    /// The theme declares a background colour, but no foreground colour.
    ThemeForeground,
    /// The tokenizer refused a line of the text.
    Highlighting,
    /// A line is wider than 32 bits can say.
    CanvasWidth,
    /// The canvas is to be measured, and its height does not fit in 32 bits.
    CanvasHeight,
}

/// What a render comes to: a document, or a refusal.
pub enum Outcome {
    Rendered(DocumentView),
    Refused(Refusal),
}

/// Is `e` the error that tells of the refusal `why`?
pub open spec fn tells(e: SiaError, why: Refusal) -> bool {
    match why {
        Refusal::ThemeBackground => e.is_invalid_config("theme background"@),
        Refusal::ThemeForeground => e.is_invalid_config("theme foreground"@),
        Refusal::Highlighting => e is Parse,
        Refusal::CanvasWidth => e.is_invalid_config("canvas width"@),
        Refusal::CanvasHeight => e.is_invalid_config("canvas height"@),
    }
}

/// Is `out` what a render hands back that comes to `outcome`?
pub open spec fn is_outcome(out: Result<VectorDocument, SiaError>, outcome: Outcome) -> bool {
    match outcome {
        Outcome::Rendered(doc) => out is Ok && out->Ok_0@ == doc,
        Outcome::Refused(why) => out is Err && tells(out->Err_0, why),
    }
}

/// What composing styled lines comes to: their document where they can be laid out.
pub open spec fn composing(
    lines: Seq<Seq<RunView>>,
    colors: ThemeColors,
    font_family: Seq<char>,
    font_size: u32,
    m: MetricsView,
    options: RenderOptions,
) -> Outcome {
    if max_line_width(m, options.width_mode, lines) > u32::MAX {
        Outcome::Refused(Refusal::CanvasWidth)
    } else if options.explicit_size is None && canvas_height(m, lines.len()) > u32::MAX {
        Outcome::Refused(Refusal::CanvasHeight)
    } else {
        Outcome::Rendered(composed(lines, colors, font_family, font_size, m, options))
    }
}

/// What the render of a text comes to, with the syntaxes of `set` and in the colours
/// `colors`: the document composed of the highlighting of the text.
pub open spec fn rendering_source(
    set: SyntaxSet,
    theme: Theme,
    colors: ThemeColors,
    text: Seq<char>,
    token: Seq<char>,
    font_family: Seq<char>,
    font_size: u32,
    m: MetricsView,
    options: RenderOptions,
) -> Outcome {
    match highlighting(set, theme, colors.foreground, text, token) {
        None => Outcome::Refused(Refusal::Highlighting),
        Some(lines) => composing(lines, colors, font_family, font_size, m, options),
    }
}

/// What the render of a text comes to, with the syntaxes of `set` and in the colours that
/// `theme` declares.
pub open spec fn rendering(
    set: SyntaxSet,
    theme: Theme,
    text: Seq<char>,
    token: Seq<char>,
    font_family: Seq<char>,
    font_size: u32,
    m: MetricsView,
    options: RenderOptions,
) -> Outcome {
    match declared_background(theme) {
        None => Outcome::Refused(Refusal::ThemeBackground),
        Some(background) => match declared_foreground(theme) {
            None => Outcome::Refused(Refusal::ThemeForeground),
            Some(foreground) => rendering_source(
                set,
                theme,
                ThemeColors { background, foreground },
                text,
                token,
                font_family,
                font_size,
                m,
                options,
            ),
        },
    }
}

/// An error tells of one refusal only: the details of the errors differ.
pub proof fn lemma_one_refusal(e: SiaError, first: Refusal, second: Refusal)
    requires
        tells(e, first),
        tells(e, second),
    ensures
        first == second,
{
    reveal_strlit("theme background");
    reveal_strlit("theme foreground");
    reveal_strlit("canvas width");
    reveal_strlit("canvas height");
    assert("theme background"@[6] == 'b');
    assert("theme foreground"@[6] == 'f');
    assert("theme background"@.len() == 16);
    assert("theme foreground"@.len() == 16);
    assert("canvas width"@.len() == 12);
    assert("canvas height"@.len() == 13);
}

/// Determinism: two renders that come to the same outcome both succeed or both fail, and
/// where they succeed their documents have the same markup, character for character. Every
/// render of [`source_to_svg`] comes to the one outcome that its arguments fix.
pub proof fn lemma_outcome_deterministic(
    first: Result<VectorDocument, SiaError>,
    second: Result<VectorDocument, SiaError>,
    outcome: Outcome,
)
    requires
        is_outcome(first, outcome),
        is_outcome(second, outcome),
    ensures
        first is Ok <==> second is Ok,
        first is Ok ==> document_markup(first->Ok_0@) == document_markup(second->Ok_0@),
{
}

/// The empty text renders whatever its syntax: to the document without lines, whose canvas
/// is no wider than nothing and one line high unless the caller gave its dimensions.
pub proof fn lemma_empty_text_renders(
    set: SyntaxSet,
    theme: Theme,
    colors: ThemeColors,
    token: Seq<char>,
    font_family: Seq<char>,
    font_size: u32,
    m: MetricsView,
    options: RenderOptions,
)
    requires
        m.well_formed(),
    ensures
        rendering_source(
            set,
            theme,
            colors,
            Seq::empty(),
            token,
            font_family,
            font_size,
            m,
            options,
        ) == Outcome::Rendered(
            composed(Seq::empty(), colors, font_family, font_size, m, options),
        ),
{
    let text = Seq::<char>::empty();
    let none = Seq::<Seq<RunView>>::empty();
    lemma_lines_empty(text);
    assert(highlighting(set, theme, colors.foreground, text, token) == Some(none));
    lemma_canvas_height_formula(m, options.width_mode, none);
}

/// Plain text of one line renders wherever its line can be laid out, to a canvas two line
/// heights high, rounded up to whole pixels: the line and the padding below it. Its document
/// holds one line node, whose runs, of which there is one unless the line is empty, carry
/// no style of their own.
pub proof fn lemma_one_plain_line_renders(
    set: SyntaxSet,
    theme: Theme,
    colors: ThemeColors,
    text: Seq<char>,
    token: Seq<char>,
    font_family: Seq<char>,
    font_size: u32,
    m: MetricsView,
    options: RenderOptions,
)
    requires
        found_syntax(set, token) is None,
        lines_with_endings(text).len() == 1,
        options.explicit_size is None,
        m.well_formed(),
        can_lay_out(plain_highlighting(text, colors.foreground), m, options),
    ensures
        rendering_source(set, theme, colors, text, token, font_family, font_size, m, options)
            matches Outcome::Rendered(doc) && {
            &&& doc == composed(
                plain_highlighting(text, colors.foreground),
                colors,
                font_family,
                font_size,
                m,
                options,
            )
            &&& doc.dimensions.height == px_ceil((2 * m.line_height()) as nat)
            &&& m.line_height() % 100 == 0 ==> doc.dimensions.height == 2 * (m.line_height() / 100)
            &&& doc.group.lines.len() == 1
            &&& doc.group.lines[0].runs.len() == if without_newline(text).len() == 0 {
                0nat
            } else {
                1nat
            }
            &&& forall|k: int|
                0 <= k < doc.group.lines[0].runs.len() ==> {
                    &&& (#[trigger] doc.group.lines[0].runs[k]).is_plain()
                    &&& doc.group.lines[0].runs[k].text == escape(without_newline(text))
                }
        },
{
    let lines = lines_with_endings(text);
    let plain = plain_highlighting(text, colors.foreground);
    lemma_highlighted_from(start_of(set, theme, colors.foreground, token), lines);
    assert(highlighting(set, theme, colors.foreground, text, token) == Some(plain));
    lemma_canvas_height_formula(m, options.width_mode, plain);
    let height = m.line_height();
    assert(height * (plain.len() + 1) == 2 * height) by (nonlinear_arith)
        requires
            plain.len() == 1,
    ;
    lemma_lines_make_up_text(text);
    assert(joined_lines(lines) == joined_lines(lines.drop_last()) + lines.last());
    assert(lines.drop_last().len() == 0);
    assert(lines[0] == text);
    let doc = composed(plain, colors, font_family, font_size, m, options);
    assert(plain[0] == plain_line(text, colors.foreground));
    if height % 100 == 0 {
        assert(2 * height == (2 * (height / 100)) * 100);
    }
}

/// Renders a source document with the syntaxes `syntaxes`, in the colours `colors` that
/// `theme` declares: highlights its text, lays the lines out with the metrics of the font,
/// and assembles the document.
///
/// The render comes to the one outcome that its arguments fix. It is refused where the
/// tokenizer refuses a line, which it never does to plain text or to the empty text, and
/// where the lines cannot be laid out.
pub fn source_to_svg(
    syntaxes: &Syntaxes,
    theme: &Theme,
    colors: ThemeColors,
    source: &SourceDocument,
    font: &FontConfig,
    options: &RenderOptions,
) -> (out: Result<VectorDocument, SiaError>)
    ensures
        is_outcome(
            out,
            rendering_source(
                syntaxes@,
                *theme,
                colors,
                source.text@,
                source.detected_syntax@,
                font.family@,
                font.size,
                font.metrics@,
                *options,
            ),
        ),
{
    let lines = match highlight(
        syntaxes,
        theme,
        colors.foreground,
        source.text.as_str(),
        source.detected_syntax.as_str(),
    ) {
        Ok(lines) => lines,
        Err(e) => {
            return Err(e);
        },
    };
    compose(&lines, colors, font, options)
}

/// Renders a source document: highlights its text in the syntax that its token stands for,
/// or as plain text where the token stands for none, lays the lines out with the metrics of
/// the font, and assembles the document in the colours of the theme.
///
/// The syntaxes are those that syntect ships, and the colours are the background and the
/// foreground that the theme declares; a theme that lacks one of them is refused. The rest is
/// [`source_to_svg`]. The empty text is never refused for its highlighting or its layout.
pub fn code_to_svg(
    theme: &Theme,
    source: &SourceDocument,
    font: &FontConfig,
    options: &RenderOptions,
) -> (out: Result<VectorDocument, SiaError>)
    ensures
        exists|set: SyntaxSet| #[trigger]
            is_outcome(
                out,
                rendering(
                    set,
                    *theme,
                    source.text@,
                    source.detected_syntax@,
                    font.family@,
                    font.size,
                    font.metrics@,
                    *options,
                ),
            ),
        declared_background(*theme) is None <==> out is Err && tells(
            out->Err_0,
            Refusal::ThemeBackground,
        ),
        declared_background(*theme) is Some && declared_foreground(*theme) is None <==> out is Err
            && tells(out->Err_0, Refusal::ThemeForeground),
        out is Err && out->Err_0 is Parse ==> source.text@.len() > 0,
        declared_background(*theme) is Some && declared_foreground(*theme) is Some
            && source.text@.len() == 0 ==> out is Ok && out->Ok_0@ == composed(
            Seq::empty(),
            ThemeColors {
                background: declared_background(*theme).unwrap(),
                foreground: declared_foreground(*theme).unwrap(),
            },
            font.family@,
            font.size,
            font.metrics@,
            *options,
        ),
{
    let colors = match theme_colors(theme) {
        Ok(colors) => colors,
        Err(e) => {
            let out = Err(e);
            proof {
                assert(is_outcome(
                    out,
                    rendering(
                        arbitrary(),
                        *theme,
                        source.text@,
                        source.detected_syntax@,
                        font.family@,
                        font.size,
                        font.metrics@,
                        *options,
                    ),
                ));
                if tells(e, Refusal::ThemeBackground) && tells(e, Refusal::ThemeForeground) {
                    lemma_one_refusal(e, Refusal::ThemeBackground, Refusal::ThemeForeground);
                }
            }
            return out;
        },
    };
    assert(colors == (ThemeColors {
        background: declared_background(*theme).unwrap(),
        foreground: declared_foreground(*theme).unwrap(),
    }));
    let syntaxes = Syntaxes::load_defaults();
    // The metrics of a font are well formed, so the empty text can always be laid out.
    let _line_height: u32 = font.metrics.line_height();
    proof {
        if source.text@.len() == 0 {
            assert(source.text@ == Seq::<char>::empty());
            lemma_empty_text_renders(
                syntaxes@,
                *theme,
                colors,
                source.detected_syntax@,
                font.family@,
                font.size,
                font.metrics@,
                *options,
            );
        }
    }
    let out = source_to_svg(&syntaxes, theme, colors, source, font, options);
    proof {
        let outcome = rendering(
            syntaxes@,
            *theme,
            source.text@,
            source.detected_syntax@,
            font.family@,
            font.size,
            font.metrics@,
            *options,
        );
        assert(is_outcome(out, outcome));
        if let Outcome::Refused(why) = outcome {
            if tells(out->Err_0, Refusal::ThemeBackground) {
                lemma_one_refusal(out->Err_0, Refusal::ThemeBackground, why);
            }
            if tells(out->Err_0, Refusal::ThemeForeground) {
                lemma_one_refusal(out->Err_0, Refusal::ThemeForeground, why);
            }
        }
    }
    out
}

} // verus!

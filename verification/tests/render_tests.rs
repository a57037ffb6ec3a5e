use sia::color::Rgb;
use sia::dimensions::Dimensions;
use sia::document::{get_dimensions, ThemeColors};
use sia::error::SiaError;
use sia::metrics::{FontMetrics, VerticalMetrics, WidthMode};
use sia::render::{
    code_to_svg, compose, render_lines, source_to_svg, FontConfig, RenderOptions,
};
use sia::highlight::Syntaxes;
use sia::source::SourceDocument;
use sia::style::{StyledLine, StyledRun};
use syntect::highlighting::{Theme, ThemeSet};

const FOREGROUND: Rgb = Rgb { r: 0xC0, g: 0xC5, b: 0xCE };
const BACKGROUND: Rgb = Rgb { r: 0x2B, g: 0x30, b: 0x3B };

fn ocean() -> Theme {
    ThemeSet::load_defaults().themes["base16-ocean.dark"].clone()
}

fn font() -> FontConfig {
    let mut metrics =
        FontMetrics::new(VerticalMetrics { ascent: 1500, descent: -400, line_gap: 100 }, 600)
            .unwrap();
    metrics.set_advance(' ', 250);
    FontConfig { family: "DejaVu Sans Mono".to_string(), size: 1600, metrics }
}

fn colors() -> ThemeColors {
    ThemeColors { background: BACKGROUND, foreground: FOREGROUND }
}

fn lines() -> Vec<StyledLine> {
    vec![
        StyledLine {
            runs: vec![
                StyledRun {
                    text: "let".to_string(),
                    foreground: Rgb { r: 0xB4, g: 0x8E, b: 0xAD },
                    bold: false,
                    italic: true,
                },
                StyledRun {
                    text: " x".to_string(),
                    foreground: FOREGROUND,
                    bold: false,
                    italic: false,
                },
            ],
        },
        StyledLine { runs: vec![] },
    ]
}

#[test]
fn default_options_measure_exactly() {
    let options = RenderOptions::default();
    assert_eq!(options.explicit_size, None);
    assert_eq!(options.width_mode, WidthMode::Exact);
    assert_eq!(options.em_multiplier, 120);
    assert!(!options.positioned_runs);
}

#[test]
fn lines_compose_to_their_document() {
    let doc = compose(&lines(), colors(), &font(), &RenderOptions::default()).unwrap();
    assert_eq!(get_dimensions(&doc), (27, 60));
    assert_eq!(doc.background, BACKGROUND);
    assert_eq!(doc.group.fill, FOREGROUND);
    assert_eq!(doc.group.font_family, "DejaVu Sans Mono");
    assert_eq!(doc.group.font_size, 1600);
    assert_eq!(doc.group.lines.len(), 2);
    assert_eq!(doc.group.lines[0].runs[1].text, "&#32;x");
}

#[test]
fn options_reach_the_document() {
    let options = RenderOptions {
        explicit_size: Some(Dimensions { width: 300, height: 200 }),
        width_mode: WidthMode::Reference(' '),
        em_multiplier: 150,
        positioned_runs: true,
    };
    let doc = compose(&lines(), colors(), &font(), &options).unwrap();
    assert_eq!(get_dimensions(&doc), (300, 200));
    assert_eq!(doc.group.lines[1].baseline, 300);
    assert_eq!(doc.group.lines[0].runs[0].x, Some(0));
    assert_eq!(doc.group.lines[0].runs[1].x, Some(750));
}

#[test]
fn two_renders_are_the_same_character_for_character() {
    let options = RenderOptions::default();
    let first = render_lines(&lines(), colors(), &font(), &options).unwrap();
    let second = render_lines(&lines(), colors(), &font(), &options).unwrap();
    assert_eq!(first, second);
    assert_eq!(
        first,
        compose(&lines(), colors(), &font(), &options).unwrap().to_markup()
    );
    assert!(first.starts_with("<svg xmlns=\"http://www.w3.org/2000/svg\" width=\"27px\" height=\"60px\">"));
    assert!(first.contains("<tspan fill=\"#B48EAD\" font-style=\"italic\">let</tspan><tspan>&#32;x</tspan>"));
    assert!(!first.contains('\n'));
}

#[test]
fn what_cannot_be_laid_out_is_refused() {
    let wide = FontConfig {
        family: "Wide".to_string(),
        size: 1600,
        metrics: FontMetrics::new(
            VerticalMetrics { ascent: 1500, descent: -400, line_gap: 100 },
            u32::MAX,
        )
        .unwrap(),
    };
    match compose(&lines(), colors(), &wide, &RenderOptions::default()) {
        Err(SiaError::InvalidConfig(what)) => assert_eq!(what, "canvas width"),
        other => panic!("{:?}", other),
    }
    match render_lines(&lines(), colors(), &wide, &RenderOptions::default()) {
        Err(e) => assert_eq!(e.message(), "Invalid configuration: canvas width"),
        other => panic!("{:?}", other),
    }
}

#[test]
fn source_renders_from_text_to_document() {
    let source = SourceDocument::new("fn main() {}\n".to_string(), "rs".to_string());
    let doc = code_to_svg(&ocean(), &source, &font(), &RenderOptions::default()).unwrap();
    assert_eq!(doc.background, BACKGROUND);
    assert_eq!(doc.group.fill, FOREGROUND);
    assert_eq!(doc.group.lines.len(), 1);
    assert_eq!(get_dimensions(&doc), (65, 40));
    let text: String = doc.group.lines[0].runs.iter().map(|r| r.text.as_str()).collect();
    assert_eq!(text, "fn&#32;main()&#32;{}");
    assert_eq!(doc.group.lines[0].runs[0].text, "fn");
    assert!(doc.group.lines[0].runs[0].fill.is_some());
    let again = code_to_svg(&ocean(), &source, &font(), &RenderOptions::default()).unwrap();
    assert_eq!(doc.to_markup(), again.to_markup());
}

#[test]
fn plain_text_renders_without_any_style() {
    let source = SourceDocument::new("fn main() {}\n".to_string(), "no-such-syntax".to_string());
    let doc = code_to_svg(&ocean(), &source, &font(), &RenderOptions::default()).unwrap();
    assert_eq!(doc.group.lines.len(), 1);
    assert_eq!(doc.group.lines[0].runs.len(), 1);
    assert_eq!(doc.group.lines[0].runs[0].fill, None);
    assert_eq!(get_dimensions(&doc).1, 40);
    assert!(doc.to_markup().contains("<tspan>fn&#32;main()&#32;{}</tspan>"));
}

#[test]
fn empty_source_renders_to_a_document_without_lines() {
    let source = SourceDocument::new(String::new(), "rs".to_string());
    let doc = code_to_svg(&ocean(), &source, &font(), &RenderOptions::default()).unwrap();
    assert_eq!(doc.group.lines.len(), 0);
    assert_eq!(get_dimensions(&doc), (0, 20));
}

#[test]
fn theme_without_colours_is_refused() {
    let source = SourceDocument::new("fn main() {}\n".to_string(), "rs".to_string());
    match code_to_svg(&Theme::default(), &source, &font(), &RenderOptions::default()) {
        Err(SiaError::InvalidConfig(what)) => assert_eq!(what, "theme background"),
        other => panic!("{:?}", other),
    }
}

#[test]
fn plain_text_renders_in_the_colours_it_is_given() {
    let syntaxes = Syntaxes::load_defaults();
    let source = SourceDocument::new("a < b\n\nc".to_string(), "no-such-syntax".to_string());
    let inverted = ThemeColors { background: FOREGROUND, foreground: BACKGROUND };
    let doc =
        source_to_svg(&syntaxes, &ocean(), inverted, &source, &font(), &RenderOptions::default())
            .unwrap();
    assert_eq!(get_dimensions(&doc), (23, 80));
    assert_eq!(
        doc.to_markup(),
        [
            "<svg xmlns=\"http://www.w3.org/2000/svg\" width=\"23px\" height=\"80px\">",
            "<rect width=\"100%\" height=\"100%\" fill=\"#C0C5CE\"/>",
            "<g font-family=\"DejaVu Sans Mono\" font-size=\"16.00\" fill=\"#2B303B\">",
            "<text x=\"0\" y=\"1.20em\" xml:space=\"preserve\">",
            "<tspan>a&#32;&lt;&#32;b</tspan></text>",
            "<text x=\"0\" y=\"2.40em\" xml:space=\"preserve\"></text>",
            "<text x=\"0\" y=\"3.60em\" xml:space=\"preserve\"><tspan>c</tspan></text>",
            "</g></svg>",
        ]
        .concat()
    );
}

#[test]
fn known_syntax_renders_with_the_set_it_is_given() {
    let syntaxes = Syntaxes::load_defaults();
    let source = SourceDocument::new("fn main() {}\n".to_string(), "rs".to_string());
    let with_set =
        source_to_svg(&syntaxes, &ocean(), colors(), &source, &font(), &RenderOptions::default())
            .unwrap();
    let with_default =
        code_to_svg(&ocean(), &source, &font(), &RenderOptions::default()).unwrap();
    assert_eq!(with_set.to_markup(), with_default.to_markup());
}

#[test]
fn plain_text_that_cannot_be_laid_out_is_refused() {
    let syntaxes = Syntaxes::load_defaults();
    let source = SourceDocument::new("ab".to_string(), "no-such-syntax".to_string());
    let wide = FontConfig {
        family: "Wide".to_string(),
        size: 1600,
        metrics: FontMetrics::new(
            VerticalMetrics { ascent: 1500, descent: -400, line_gap: 100 },
            u32::MAX,
        )
        .unwrap(),
    };
    match source_to_svg(&syntaxes, &ocean(), colors(), &source, &wide, &RenderOptions::default()) {
        Err(SiaError::InvalidConfig(what)) => assert_eq!(what, "canvas width"),
        other => panic!("{:?}", other),
    }
}

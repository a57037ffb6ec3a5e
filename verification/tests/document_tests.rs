use sia::color::Rgb;
use sia::dimensions::Dimensions;
use sia::document::{assemble, get_dimensions, set_dimensions, ThemeColors, VectorDocument};
use sia::layout::layout;
use sia::metrics::{FontMetrics, VerticalMetrics, WidthMode};
use sia::style::{StyledLine, StyledRun};

const FOREGROUND: Rgb = Rgb { r: 0xC0, g: 0xC5, b: 0xCE };
const BACKGROUND: Rgb = Rgb { r: 0x2B, g: 0x30, b: 0x3B };
const RED: Rgb = Rgb { r: 0xBF, g: 0x61, b: 0x6A };

fn colors() -> ThemeColors {
    ThemeColors { background: BACKGROUND, foreground: FOREGROUND }
}

fn metrics() -> FontMetrics {
    let mut m =
        FontMetrics::new(VerticalMetrics { ascent: 1500, descent: -400, line_gap: 100 }, 600)
            .unwrap();
    m.set_advance(' ', 250);
    m
}

fn run(text: &str, foreground: Rgb, bold: bool, italic: bool) -> StyledRun {
    StyledRun { text: text.to_string(), foreground, bold, italic }
}

fn document(lines: &Vec<StyledLine>, positioned: bool) -> VectorDocument {
    let l = layout(lines, &metrics(), WidthMode::Exact, None).unwrap();
    assemble(lines, &l, colors(), "DejaVu Sans Mono", 1600, 120, positioned)
}

#[test]
fn run_in_the_default_style_carries_no_attribute() {
    let lines = vec![StyledLine {
        runs: vec![run("plain", FOREGROUND, false, false), run("red", RED, true, false)],
    }];
    let doc = document(&lines, false);
    let plain = &doc.group.lines[0].runs[0];
    assert_eq!(plain.text, "plain");
    assert_eq!(plain.fill, None);
    assert!(!plain.bold);
    assert!(!plain.italic);
    assert_eq!(plain.x, None);
    let red = &doc.group.lines[0].runs[1];
    assert_eq!(red.text, "red");
    assert_eq!(red.fill, Some(RED));
    assert_eq!(red.fill.unwrap().to_hex(), "#BF616A");
    assert!(red.bold);
    assert!(!red.italic);
    let markup = doc.to_markup();
    assert!(markup.contains("<tspan>plain</tspan>"));
    assert!(markup.contains("<tspan fill=\"#BF616A\" font-weight=\"bold\">red</tspan>"));
}

#[test]
fn only_what_differs_from_the_group_is_carried() {
    let lines = vec![StyledLine {
        runs: vec![
            run("a", FOREGROUND, true, false),
            run("b", FOREGROUND, false, true),
            run("c", RED, false, false),
            run("d", RED, true, true),
        ],
    }];
    let doc = document(&lines, false);
    let runs = &doc.group.lines[0].runs;
    assert_eq!(runs[0].fill, None);
    assert!(runs[0].bold && !runs[0].italic);
    assert_eq!(runs[1].fill, None);
    assert!(!runs[1].bold && runs[1].italic);
    assert_eq!(runs[2].fill, Some(RED));
    assert!(!runs[2].bold && !runs[2].italic);
    assert_eq!(runs[3].fill, Some(RED));
    assert!(runs[3].bold && runs[3].italic);
    let markup = doc.to_markup();
    assert!(markup.contains("<tspan font-weight=\"bold\">a</tspan>"));
    assert!(markup.contains("<tspan font-style=\"italic\">b</tspan>"));
    assert!(markup.contains("<tspan fill=\"#BF616A\">c</tspan>"));
    assert!(markup
        .contains("<tspan fill=\"#BF616A\" font-weight=\"bold\" font-style=\"italic\">d</tspan>"));
}

#[test]
fn text_of_a_run_is_escaped_once() {
    let lines = vec![StyledLine { runs: vec![run("a < b && \"c\"\t>", FOREGROUND, false, false)] }];
    let doc = document(&lines, false);
    assert_eq!(
        doc.group.lines[0].runs[0].text,
        "a&#32;&lt;&#32;b&#32;&amp;&amp;&#32;&quot;c&quot;&#9;&gt;"
    );
    assert!(doc
        .to_markup()
        .contains("<tspan>a&#32;&lt;&#32;b&#32;&amp;&amp;&#32;&quot;c&quot;&#9;&gt;</tspan>"));
}

#[test]
fn baseline_of_a_line_is_its_number_times_the_em_multiplier() {
    let lines = vec![
        StyledLine { runs: vec![run("a", FOREGROUND, false, false)] },
        StyledLine { runs: vec![] },
        StyledLine { runs: vec![run("c", FOREGROUND, false, false)] },
    ];
    let doc = document(&lines, false);
    assert_eq!(doc.group.lines.len(), 3);
    assert_eq!(doc.group.lines[0].baseline, 120);
    assert_eq!(doc.group.lines[1].baseline, 240);
    assert_eq!(doc.group.lines[2].baseline, 360);
    assert_eq!(doc.group.lines[1].runs.len(), 0);
    let l = layout(&lines, &metrics(), WidthMode::Exact, None).unwrap();
    let doc = assemble(&lines, &l, colors(), "Mono", 1600, 155, false);
    assert_eq!(doc.group.lines[0].baseline, 155);
    assert_eq!(doc.group.lines[2].baseline, 465);
}

#[test]
fn positioned_runs_carry_their_offsets() {
    let lines = vec![StyledLine {
        runs: vec![
            run("fn", RED, false, false),
            run(" ", FOREGROUND, false, false),
            run("main", FOREGROUND, false, false),
        ],
    }];
    let doc = document(&lines, true);
    let runs = &doc.group.lines[0].runs;
    assert_eq!(runs[0].x, Some(0));
    assert_eq!(runs[1].x, Some(1200));
    assert_eq!(runs[2].x, Some(1450));
    let markup = doc.to_markup();
    assert!(markup.contains("<tspan fill=\"#BF616A\" x=\"0.00\">fn</tspan>"));
    assert!(markup.contains("<tspan x=\"12.00\">&#32;</tspan>"));
    assert!(markup.contains("<tspan x=\"14.50\">main</tspan>"));
}

#[test]
fn whole_document_is_written_on_one_line() {
    let lines = vec![
        StyledLine {
            runs: vec![
                run("fn", RED, false, false),
                run(" ", FOREGROUND, false, false),
                run("main", Rgb { r: 0x8F, g: 0xA1, b: 0xB3 }, true, false),
            ],
        },
        StyledLine { runs: vec![] },
    ];
    let doc = document(&lines, false);
    assert_eq!(get_dimensions(&doc), (39, 60));
    assert_eq!(
        doc.to_markup(),
        concat_all(&[
            "<svg xmlns=\"http://www.w3.org/2000/svg\" width=\"39px\" height=\"60px\">",
            "<rect width=\"100%\" height=\"100%\" fill=\"#2B303B\"/>",
            "<g font-family=\"DejaVu Sans Mono\" font-size=\"16.00\" fill=\"#C0C5CE\">",
            "<text x=\"0\" y=\"1.20em\" xml:space=\"preserve\">",
            "<tspan fill=\"#BF616A\">fn</tspan>",
            "<tspan>&#32;</tspan>",
            "<tspan fill=\"#8FA1B3\" font-weight=\"bold\">main</tspan>",
            "</text>",
            "<text x=\"0\" y=\"2.40em\" xml:space=\"preserve\"></text>",
            "</g></svg>",
        ])
    );
}

fn concat_all(parts: &[&str]) -> String {
    let mut out = String::new();
    for part in parts.iter() {
        out.push_str(part);
    }
    out
}

#[test]
fn document_without_lines_is_still_a_document() {
    let lines: Vec<StyledLine> = Vec::new();
    let doc = document(&lines, false);
    assert_eq!(get_dimensions(&doc), (0, 20));
    assert_eq!(
        doc.to_markup(),
        concat_all(&[
            "<svg xmlns=\"http://www.w3.org/2000/svg\" width=\"0px\" height=\"20px\">",
            "<rect width=\"100%\" height=\"100%\" fill=\"#2B303B\"/>",
            "<g font-family=\"DejaVu Sans Mono\" font-size=\"16.00\" fill=\"#C0C5CE\">",
            "</g></svg>",
        ])
    );
}

#[test]
fn font_family_is_escaped_as_an_attribute() {
    let lines: Vec<StyledLine> = Vec::new();
    let l = layout(&lines, &metrics(), WidthMode::Exact, None).unwrap();
    let doc = assemble(&lines, &l, colors(), "A \"B\" & <C>\tD", 1250, 120, false);
    assert_eq!(doc.group.font_family, "A \"B\" & <C>\tD");
    assert!(doc.to_markup().contains(
        "<g font-family=\"A &quot;B&quot; &amp; &lt;C&gt;&#9;D\" font-size=\"12.50\" fill=\"#C0C5CE\">"
    ));
}

#[test]
fn dimensions_are_read_and_set() {
    let lines = vec![StyledLine { runs: vec![run("abc", FOREGROUND, false, false)] }];
    let mut doc = document(&lines, false);
    assert_eq!(get_dimensions(&doc), (18, 40));
    assert_eq!(doc.dimensions, Dimensions { width: 18, height: 40 });
    set_dimensions(&mut doc, 640, 480);
    assert_eq!(get_dimensions(&doc), (640, 480));
    assert_eq!(doc.group.lines.len(), 1);
    assert_eq!(doc.background, BACKGROUND);
    assert!(doc.to_markup().starts_with(
        "<svg xmlns=\"http://www.w3.org/2000/svg\" width=\"640px\" height=\"480px\">"
    ));
}

#[test]
fn declared_width_reads_back_from_the_markup() {
    let lines = vec![StyledLine { runs: vec![run("abc", FOREGROUND, false, false)] }];
    let mut doc = document(&lines, false);
    set_dimensions(&mut doc, 4294967295, 7);
    let markup = doc.to_markup();
    let width = markup.split("width=\"").nth(1).unwrap().split('"').next().unwrap();
    let height = markup.split("height=\"").nth(1).unwrap().split('"').next().unwrap();
    assert_eq!(width, "4294967295px");
    assert_eq!(sia::dimensions::dimension_to_int(width), 4294967295);
    assert_eq!(sia::dimensions::dimension_to_int(height), 7);
}

fn tricky_lines() -> Vec<StyledLine> {
    vec![
        StyledLine {
            runs: vec![
                run("if a < b && c > \"d\" {", RED, true, false),
                run("\t// tab & two  spaces", FOREGROUND, false, true),
            ],
        },
        StyledLine { runs: vec![] },
        StyledLine { runs: vec![run("&lt;&amp;&#32;&#9; gr\u{fc}\u{df}e \u{1f600}", FOREGROUND, false, false)] },
    ]
}

#[test]
fn markup_reader_reads_the_text_of_every_run_back() {
    let lines = tricky_lines();
    let l = layout(&lines, &metrics(), WidthMode::Exact, None).unwrap();
    let doc = assemble(&lines, &l, colors(), "A \"B\" & <C>\tD", 1600, 120, true);
    let markup = doc.to_markup();
    let read = roxmltree::Document::parse(&markup).unwrap();
    let root = read.root_element();
    assert!(root.has_tag_name(("http://www.w3.org/2000/svg", "svg")));
    assert_eq!(root.attribute("width"), Some("207px"));
    assert_eq!(root.attribute("height"), Some("80px"));
    let group = root.children().find(|n| n.has_tag_name(("http://www.w3.org/2000/svg", "g"))).unwrap();
    assert_eq!(group.attribute("font-family"), Some("A \"B\" & <C>\tD"));
    assert_eq!(group.attribute("font-size"), Some("16.00"));
    assert_eq!(group.attribute("fill"), Some("#C0C5CE"));
    let texts: Vec<roxmltree::Node> = group.children().filter(|n| n.is_element()).collect();
    assert_eq!(texts.len(), lines.len());
    for (text, line) in texts.iter().zip(lines.iter()) {
        let spans: Vec<roxmltree::Node> = text.children().filter(|n| n.is_element()).collect();
        assert_eq!(spans.len(), line.runs.len());
        for (span, run) in spans.iter().zip(line.runs.iter()) {
            assert_eq!(span.text(), Some(run.text.as_str()));
            assert_eq!(span.attribute("font-weight").is_some(), run.bold);
            assert_eq!(span.attribute("font-style").is_some(), run.italic);
            assert_eq!(span.attribute("fill").is_some(), run.foreground != FOREGROUND);
            assert!(span.attribute("x").is_some());
        }
    }
    assert_eq!(texts[0].attribute("y"), Some("1.20em"));
    assert_eq!(texts[2].attribute("y"), Some("3.60em"));
}

#[test]
fn rasterizer_takes_the_markup() {
    let lines = tricky_lines();
    let l = layout(&lines, &metrics(), WidthMode::Exact, None).unwrap();
    let doc = assemble(&lines, &l, colors(), "DejaVu Sans Mono", 1600, 120, false);
    let tree = usvg::Tree::from_str(&doc.to_markup(), &usvg::Options::default()).unwrap();
    assert_eq!(tree.size().width(), 207.0);
    assert_eq!(tree.size().height(), 80.0);
}

use sia::color::Rgb;
use sia::dimensions::Dimensions;
use sia::error::SiaError;
use sia::layout::{canvas_dimensions, get_canvas_height, layout, layout_line};
use sia::metrics::{FontMetrics, VerticalMetrics, WidthMode};
use sia::style::{StyledLine, StyledRun};

fn metrics() -> FontMetrics {
    let mut m =
        FontMetrics::new(VerticalMetrics { ascent: 1500, descent: -400, line_gap: 100 }, 600)
            .unwrap();
    m.set_advance('i', 300);
    m.set_advance('W', 900);
    m.set_advance(' ', 250);
    m
}

fn metrics_with_line_height(line_height: i32) -> FontMetrics {
    FontMetrics::new(VerticalMetrics { ascent: line_height, descent: 0, line_gap: 0 }, 600).unwrap()
}

fn run(text: &str) -> StyledRun {
    StyledRun { text: text.to_string(), foreground: Rgb { r: 1, g: 2, b: 3 }, bold: false, italic: false }
}

fn line(texts: &[&str]) -> StyledLine {
    StyledLine { runs: texts.iter().map(|t| run(t)).collect() }
}

#[test]
fn run_starts_where_the_runs_before_it_end() {
    let l = layout_line(&line(&["fn", " ", "Wii", "x"]), &metrics(), WidthMode::Exact).unwrap();
    assert_eq!(l.offsets, vec![0, 1200, 1450, 2950]);
    assert_eq!(l.width, 3550);
}

#[test]
fn line_is_as_wide_as_its_text_however_it_is_cut() {
    let m = metrics();
    let whole = layout_line(&line(&["fn Wii x"]), &m, WidthMode::Exact).unwrap();
    let cut = layout_line(&line(&["f", "n W", "i", "i x"]), &m, WidthMode::Exact).unwrap();
    assert_eq!(whole.width, 3800);
    assert_eq!(cut.width, whole.width);
    assert_eq!(cut.offsets, vec![0, 600, 2350, 2650]);
}

#[test]
fn empty_line_has_no_width() {
    let l = layout_line(&line(&[]), &metrics(), WidthMode::Exact).unwrap();
    assert_eq!(l.offsets, Vec::<u32>::new());
    assert_eq!(l.width, 0);
}

#[test]
fn white_space_has_its_width() {
    let l = layout_line(&line(&["   "]), &metrics(), WidthMode::Exact).unwrap();
    assert_eq!(l.width, 750);
}

#[test]
fn reference_mode_counts_characters() {
    let l = layout_line(&line(&["fn", " ", "Wii"]), &metrics(), WidthMode::Reference('W')).unwrap();
    assert_eq!(l.offsets, vec![0, 1800, 2700]);
    assert_eq!(l.width, 5400);
}

#[test]
fn canvas_is_as_wide_as_the_widest_line() {
    let lines = vec![line(&["ii"]), line(&["WW", "W"]), line(&[]), line(&["abc"])];
    let l = layout(&lines, &metrics(), WidthMode::Exact, None).unwrap();
    assert_eq!(l.lines.len(), 4);
    assert_eq!(l.lines[0].width, 600);
    assert_eq!(l.lines[1].width, 2700);
    assert_eq!(l.lines[1].offsets, vec![0, 1800]);
    assert_eq!(l.lines[2].width, 0);
    assert_eq!(l.lines[3].width, 1800);
    assert_eq!(l.dimensions, Dimensions { width: 27, height: 100 });
    for laid in l.lines.iter() {
        assert!(laid.width <= 100 * l.dimensions.width);
    }
}

#[test]
fn canvas_width_is_rounded_up() {
    let lines = vec![line(&["WWi", "i", " "])];
    let l = layout(&lines, &metrics(), WidthMode::Exact, None).unwrap();
    assert_eq!(l.lines[0].width, 2650);
    assert_eq!(l.dimensions.width, 27);
    let lines = vec![line(&["WW", "i"])];
    let l = layout(&lines, &metrics(), WidthMode::Exact, None).unwrap();
    assert_eq!(l.lines[0].width, 2100);
    assert_eq!(l.dimensions.width, 21);
}

#[test]
fn empty_document_is_one_padding_line_high() {
    let l = layout(&Vec::new(), &metrics(), WidthMode::Exact, None).unwrap();
    assert_eq!(l.lines.len(), 0);
    assert_eq!(l.dimensions, Dimensions { width: 0, height: 20 });
    assert_eq!(get_canvas_height(None, 0, &metrics()).unwrap(), 20);
}

#[test]
fn document_of_lines_without_width_is_zero_wide() {
    let mut m = metrics();
    m.set_advance('\u{200b}', 0);
    let lines = vec![line(&[]), line(&["\u{200b}\u{200b}"])];
    let l = layout(&lines, &m, WidthMode::Exact, None).unwrap();
    assert_eq!(l.dimensions.width, 0);
    assert_eq!(l.dimensions.height, 60);
}

#[test]
fn height_is_line_height_times_lines_and_one() {
    let m = metrics();
    assert_eq!(get_canvas_height(None, 0, &m).unwrap(), 20);
    assert_eq!(get_canvas_height(None, 1, &m).unwrap(), 40);
    assert_eq!(get_canvas_height(None, 2, &m).unwrap(), 60);
    assert_eq!(get_canvas_height(None, 99, &m).unwrap(), 2000);
}

#[test]
fn height_is_rounded_up_to_whole_pixels() {
    let m = metrics_with_line_height(1999);
    assert_eq!(get_canvas_height(None, 0, &m).unwrap(), 20);
    assert_eq!(get_canvas_height(None, 1, &m).unwrap(), 40);
    assert_eq!(get_canvas_height(None, 99, &m).unwrap(), 1999);
    let m = metrics_with_line_height(1);
    assert_eq!(get_canvas_height(None, 0, &m).unwrap(), 1);
    assert_eq!(get_canvas_height(None, 99, &m).unwrap(), 1);
    assert_eq!(get_canvas_height(None, 100, &m).unwrap(), 2);
    let m = metrics_with_line_height(0);
    assert_eq!(get_canvas_height(None, 5, &m).unwrap(), 0);
}

#[test]
fn explicit_dimensions_are_used_as_they_are() {
    let explicit = Some(Dimensions { width: 7, height: 3 });
    let lines = vec![line(&["a very long line of text that is far wider than seven pixels"])];
    let l = layout(&lines, &metrics(), WidthMode::Exact, explicit).unwrap();
    assert_eq!(l.dimensions, Dimensions { width: 7, height: 3 });
    assert_eq!(l.lines[0].width, 30600);
    assert_eq!(canvas_dimensions(explicit, &lines, &metrics(), WidthMode::Exact).unwrap(), Dimensions { width: 7, height: 3 });
    assert_eq!(canvas_dimensions(explicit, &Vec::new(), &metrics(), WidthMode::Exact).unwrap(), Dimensions { width: 7, height: 3 });
    assert_eq!(get_canvas_height(explicit, 1000, &metrics()).unwrap(), 3);
    let zero = Some(Dimensions { width: 0, height: 0 });
    assert_eq!(canvas_dimensions(zero, &lines, &metrics(), WidthMode::Exact).unwrap(), Dimensions { width: 0, height: 0 });
}

#[test]
fn explicit_dimensions_win_over_what_cannot_be_measured() {
    let wide = FontMetrics::new(VerticalMetrics { ascent: i32::MAX, descent: i32::MIN, line_gap: 0 }, u32::MAX).unwrap();
    let explicit = Some(Dimensions { width: 640, height: 480 });
    let lines = vec![line(&["ab"]), line(&["c"])];
    assert_eq!(canvas_dimensions(explicit, &lines, &wide, WidthMode::Exact).unwrap(), Dimensions { width: 640, height: 480 });
    assert_eq!(get_canvas_height(explicit, usize::MAX, &wide).unwrap(), 480);
}

#[test]
fn measured_dimensions_are_the_same_by_every_way() {
    let lines = vec![line(&["ii"]), line(&["WW", "W"])];
    let m = metrics();
    let l = layout(&lines, &m, WidthMode::Exact, None).unwrap();
    assert_eq!(canvas_dimensions(None, &lines, &m, WidthMode::Exact).unwrap(), l.dimensions);
    assert_eq!(get_canvas_height(None, lines.len(), &m).unwrap(), l.dimensions.height);
}

#[test]
fn line_too_wide_for_the_canvas_is_refused() {
    let wide = FontMetrics::new(VerticalMetrics { ascent: 1000, descent: 0, line_gap: 0 }, u32::MAX).unwrap();
    assert!(layout_line(&line(&["a"]), &wide, WidthMode::Exact).is_some());
    assert!(layout_line(&line(&["a", "b"]), &wide, WidthMode::Exact).is_none());
    let lines = vec![line(&["a"]), line(&["ab"])];
    match layout(&lines, &wide, WidthMode::Exact, None) {
        Err(SiaError::InvalidConfig(what)) => assert_eq!(what, "canvas width"),
        other => panic!("{:?}", other),
    }
    match layout(&lines, &wide, WidthMode::Exact, Some(Dimensions { width: 1, height: 1 })) {
        Err(e) => assert_eq!(e.message(), "Invalid configuration: canvas width"),
        other => panic!("{:?}", other),
    }
    match canvas_dimensions(None, &lines, &wide, WidthMode::Exact) {
        Err(SiaError::InvalidConfig(what)) => assert_eq!(what, "canvas width"),
        other => panic!("{:?}", other),
    }
}

#[test]
fn canvas_too_high_is_refused() {
    let tall = FontMetrics::new(VerticalMetrics { ascent: i32::MAX, descent: i32::MIN, line_gap: 0 }, 600).unwrap();
    assert_eq!(get_canvas_height(None, 0, &tall).unwrap(), 42949673);
    assert_eq!(get_canvas_height(None, 99, &tall).unwrap(), u32::MAX);
    match get_canvas_height(None, 100, &tall) {
        Err(SiaError::InvalidConfig(what)) => assert_eq!(what, "canvas height"),
        other => panic!("{:?}", other),
    }
    let lines: Vec<StyledLine> = (0..100).map(|_| line(&["a"])).collect();
    match layout(&lines, &tall, WidthMode::Exact, None) {
        Err(e) => assert_eq!(e.message(), "Invalid configuration: canvas height"),
        other => panic!("{:?}", other),
    }
    assert!(layout(&lines, &tall, WidthMode::Exact, Some(Dimensions { width: 1, height: 1 })).is_ok());
}

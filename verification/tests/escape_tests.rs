use sia::escape::escape_text;

fn decode(markup: &str) -> String {
    let references = [
        ("&amp;", '&'),
        ("&lt;", '<'),
        ("&gt;", '>'),
        ("&quot;", '"'),
        ("&#32;", ' '),
        ("&#9;", '\t'),
    ];
    let mut out = String::new();
    let mut rest = markup;
    'outer: while let Some(c) = rest.chars().next() {
        for (reference, stands_for) in references.iter() {
            if rest.starts_with(reference) {
                out.push(*stands_for);
                rest = &rest[reference.len()..];
                continue 'outer;
            }
        }
        out.push(c);
        rest = &rest[c.len_utf8()..];
    }
    out
}

#[test]
fn reserved_characters_are_replaced() {
    assert_eq!(escape_text("<"), "&lt;");
    assert_eq!(escape_text(">"), "&gt;");
    assert_eq!(escape_text("\""), "&quot;");
    assert_eq!(escape_text("&"), "&amp;");
    assert_eq!(escape_text(" "), "&#32;");
    assert_eq!(escape_text("\t"), "&#9;");
}

#[test]
fn other_characters_are_kept() {
    assert_eq!(escape_text(""), "");
    assert_eq!(escape_text("main"), "main");
    assert_eq!(escape_text("'x'"), "'x'");
    assert_eq!(escape_text("gr\u{fc}\u{df}e\u{1f600}"), "gr\u{fc}\u{df}e\u{1f600}");
}

#[test]
fn code_is_escaped_character_by_character() {
    assert_eq!(
        escape_text("if a < b && c > \"d\" {\t}"),
        "if&#32;a&#32;&lt;&#32;b&#32;&amp;&amp;&#32;c&#32;&gt;&#32;&quot;d&quot;&#32;{&#9;}"
    );
}

#[test]
fn text_that_looks_escaped_is_escaped_again() {
    assert_eq!(escape_text("&lt;"), "&amp;lt;");
    assert_eq!(escape_text("&#32;"), "&amp;#32;");
}

#[test]
fn escaped_text_decodes_to_the_text() {
    let texts = [
        "",
        "fn main() {}",
        "a < b > c \"d\" \t e",
        "&lt;&amp;&&",
        "&#32;&#9;  \t\t",
        "<<>>\"\"&&",
        "x &amp",
        "gr\u{fc}\u{df}e <\u{1f600}>",
    ];
    for text in texts.iter() {
        assert_eq!(decode(&escape_text(text)), *text);
    }
}

#[test]
fn escaped_text_holds_no_reserved_character() {
    let escaped = escape_text("a < b > c \"d\" \t e & f");
    assert!(!escaped.contains('<'));
    assert!(!escaped.contains('>'));
    assert!(!escaped.contains('"'));
    assert!(!escaped.contains(' '));
    assert!(!escaped.contains('\t'));
}

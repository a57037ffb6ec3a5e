use sia::font_name::{
    family_name_of, is_font_modifier, join_words, split_where, split_words, strip_font_modifier,
};

#[test]
fn modifier_at_the_end_is_taken_off() {
    assert_eq!(strip_font_modifier("DejaVu Sans Bold"), "DejaVu Sans");
    assert_eq!(strip_font_modifier("Fira Code Light"), "Fira Code");
    assert_eq!(strip_font_modifier("Helvetica Oblique"), "Helvetica");
}

#[test]
fn case_of_the_modifier_does_not_matter() {
    assert_eq!(strip_font_modifier("DejaVu Sans BOLD"), "DejaVu Sans");
    assert_eq!(strip_font_modifier("Noto Serif ItAlIc"), "Noto Serif");
    assert_eq!(strip_font_modifier("Inter blac\u{212a}"), "Inter");
}

#[test]
fn only_the_last_word_is_taken_off() {
    assert_eq!(strip_font_modifier("Inter Extra Bold"), "Inter Extra");
    assert_eq!(strip_font_modifier("Bold Italic"), "Bold");
}

#[test]
fn white_space_between_words_becomes_one_space() {
    assert_eq!(strip_font_modifier("  DejaVu \t Sans\n Bold  "), "DejaVu Sans");
    assert_eq!(strip_font_modifier("Source\u{a0}Code\u{3000}Pro Medium"), "Source Code Pro");
}

#[test]
fn name_without_modifier_is_handed_back() {
    assert_eq!(strip_font_modifier("DejaVu Sans Mono"), "DejaVu Sans Mono");
    assert_eq!(strip_font_modifier("  DejaVu   Sans  "), "  DejaVu   Sans  ");
    assert_eq!(strip_font_modifier("Bold Face"), "Bold Face");
    assert_eq!(strip_font_modifier("Inter Bolder"), "Inter Bolder");
}

#[test]
fn name_of_one_word_is_handed_back() {
    assert_eq!(strip_font_modifier("Bold"), "Bold");
    assert_eq!(strip_font_modifier(" Bold "), " Bold ");
    assert_eq!(strip_font_modifier(""), "");
    assert_eq!(strip_font_modifier("   "), "   ");
}

#[test]
fn every_modifier_is_known() {
    let known = [
        "bold", "italic", "regular", "light", "medium", "semibold", "thin", "black", "book",
        "condensed", "extra", "ultra", "demi", "heavy", "oblique",
    ];
    for word in known.iter() {
        assert!(is_font_modifier(word));
        assert_eq!(strip_font_modifier(&format!("Family {}", word)), "Family");
    }
    assert!(!is_font_modifier("Bold"));
    assert!(!is_font_modifier("mono"));
    assert!(!is_font_modifier(""));
    assert!(!is_font_modifier("bold "));
}

#[test]
fn words_are_split_at_white_space() {
    assert_eq!(split_words(" a  bc\td\n"), vec!["a".to_string(), "bc".to_string(), "d".to_string()]);
    assert_eq!(split_words(""), Vec::<String>::new());
    assert_eq!(split_words(" \t "), Vec::<String>::new());
    assert_eq!(split_words("one"), vec!["one".to_string()]);
}

#[test]
fn words_are_joined_with_single_spaces() {
    let words = vec!["a".to_string(), "bc".to_string(), "d".to_string()];
    assert_eq!(join_words(&words, 0), "");
    assert_eq!(join_words(&words, 1), "a");
    assert_eq!(join_words(&words, 2), "a bc");
    assert_eq!(join_words(&words, 3), "a bc d");
}

#[test]
fn words_lie_between_the_characters_that_are_called_white() {
    let chars: Vec<char> = "a-b--cd-".chars().collect();
    let white: Vec<bool> = chars.iter().map(|c| *c == '-').collect();
    assert_eq!(split_where(&chars, &white), vec!["a".to_string(), "b".to_string(), "cd".to_string()]);
    let none = vec![false; chars.len()];
    assert_eq!(split_where(&chars, &none), vec!["a-b--cd-".to_string()]);
    let all = vec![true; chars.len()];
    assert_eq!(split_where(&chars, &all), Vec::<String>::new());
    assert_eq!(split_where(&Vec::new(), &Vec::new()), Vec::<String>::new());
}

#[test]
fn family_name_goes_by_the_lower_case_it_is_given() {
    let words = vec!["Fira".to_string(), "Code".to_string(), "Fett".to_string()];
    assert_eq!(family_name_of("Fira Code Fett", &words, "bold"), "Fira Code");
    assert_eq!(family_name_of("Fira Code Fett", &words, "fett"), "Fira Code Fett");
    assert_eq!(family_name_of("Fira Code Fett", &words, "Bold"), "Fira Code Fett");
    let one = vec!["Bold".to_string()];
    assert_eq!(family_name_of(" Bold ", &one, "bold"), " Bold ");
    assert_eq!(family_name_of("", &Vec::new(), "bold"), "");
}

use sia::error::SiaError;

#[test]
fn every_error_has_its_heading() {
    let d = || "detail".to_string();
    assert_eq!(SiaError::Io(d()).message(), "I/O error: detail");
    assert_eq!(SiaError::XmlParseError(d()).message(), "XML Parse error: detail");
    assert_eq!(SiaError::InvalidSvg(d()).message(), "Invalid SVG: detail");
    assert_eq!(SiaError::Image(d()).message(), "Image error: detail");
    assert_eq!(SiaError::InvalidConfig(d()).message(), "Invalid configuration: detail");
    assert_eq!(SiaError::Parse(d()).message(), "Error While Parsing: detail");
    assert_eq!(SiaError::FontLoad(d()).message(), "Font load failure: detail");
    assert_eq!(
        SiaError::LatinDetect(d()).message(),
        "Latin\u{2010}script detection error: detail"
    );
    assert_eq!(
        SiaError::FontNameDetect(d()).message(),
        "Font\u{2010}name detection error: detail"
    );
    assert_eq!(SiaError::Message(d()).message(), "Sia Error: detail");
}

#[test]
fn invalid_config_carries_what_is_invalid() {
    match SiaError::invalid_config("size") {
        SiaError::InvalidConfig(what) => assert_eq!(what, "size"),
        other => panic!("{:?}", other),
    }
}

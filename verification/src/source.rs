//! The text to render and the syntax it is taken to be written in.

use file_format::FileFormat;
use vstd::prelude::*;
use vstd::string::StringExecFns;
use vstd::string::StringSliceAdditionalSpecFns;

verus! {

/// The file extension that `FileFormat::from_bytes` and `FileFormat::extension` of the crate
/// file-format give for a content of these bytes.
pub uninterp spec fn sniffed_extension(bytes: Seq<u8>) -> Seq<char>;

/// `FileFormat::from_bytes` and then `FileFormat::extension`: the usual file extension of the
/// format that the bytes are recognised as. The format is decided by the bytes alone.
#[verifier::external_body]
fn sniff_extension(bytes: &[u8]) -> (extension: String)
    ensures
        extension@ == sniffed_extension(bytes@),
{
    FileFormat::from_bytes(bytes).extension().to_string()
}

/// A text and the token of the syntax that it was detected to be in: a file extension or the
/// name of a syntax. The token need not stand for any known syntax.
#[derive(Debug)]
pub struct SourceDocument {
    pub text: String,
    pub detected_syntax: String,
}

impl SourceDocument {
    /// The document of a text whose syntax token is known, such as the extension of the file
    /// that the text was read from.
    pub fn new(text: String, detected_syntax: String) -> (doc: SourceDocument)
        ensures
            doc.text@ == text@,
            doc.detected_syntax@ == detected_syntax@,
    {
        SourceDocument { text, detected_syntax }
    }

    /// The document of a text that was given literally: its syntax token is the file
    /// extension that its bytes are recognised to have.
    pub fn from_literal(text: &str) -> (doc: SourceDocument)
        ensures
            doc.text@ == text@,
            doc.detected_syntax@ == sniffed_extension(text.spec_bytes()),
    {
        let detected_syntax = sniff_extension(text.as_bytes());
        SourceDocument::new(String::from_str(text), detected_syntax)
    }
}

} // verus!

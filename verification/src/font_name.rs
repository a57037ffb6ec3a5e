//! Font family names: taking the style word off the end of a full font name.
//!
//! What white space is and what the lower case of a word is, Unicode says and the standard
//! library knows. The rest is decided here: where the words of a name are, given which of
//! its characters are white, and what the family name is, given the words and the lower case
//! of the last one.

use vstd::prelude::*;
use vstd::string::StringExecFns;
use crate::text::{chars_of, same_text, string_of};

verus! {

/// Whether `char::is_whitespace` holds of a character: whether it has the property
/// White_Space of Unicode.
pub uninterp spec fn unicode_whitespace(c: char) -> bool;

/// The lower-case form that `str::to_lowercase` gives of a text, by the case mapping of
/// Unicode.
pub uninterp spec fn lowercased(s: Seq<char>) -> Seq<char>;

/// `char::is_whitespace`: does the character have the property White_Space?
#[verifier::external_body]
fn is_whitespace(c: char) -> (white: bool)
    ensures
        white == unicode_whitespace(c),
{
    c.is_whitespace()
}

/// `str::to_lowercase`: the lower-case form of the text.
#[verifier::external_body]
fn to_lowercase(s: &str) -> (lower: String)
    ensures
        lower@ == lowercased(s@),
{
    s.to_lowercase()
}

/// The index of the first white character, or the number of characters if none is white.
pub open spec fn word_end(white: Seq<bool>) -> int
    decreases white.len(),
{
    if white.len() == 0 {
        0
    } else if white[0] {
        0
    } else {
        1 + word_end(white.drop_first())
    }
}

/// The words of `s`, of whose characters `white` says which are white: the longest
/// stretches of `s` without a white character, in order.
pub open spec fn words_where(s: Seq<char>, white: Seq<bool>) -> Seq<Seq<char>>
    decreases white.len(),
{
    if white.len() == 0 || s.len() != white.len() {
        Seq::empty()
    } else if white[0] {
        words_where(s.drop_first(), white.drop_first())
    } else {
        let n = word_end(white);
        if 0 < n <= white.len() {
            seq![s.take(n)] + words_where(s.skip(n), white.skip(n))
        } else {
            Seq::empty()
        }
    }
}

/// Which characters of `s` are white space.
pub open spec fn whiteness(s: Seq<char>) -> Seq<bool> {
    Seq::new(s.len(), |i: int| unicode_whitespace(s[i]))
}

/// The words of `s`: its longest stretches without white space, in order.
pub open spec fn words(s: Seq<char>) -> Seq<Seq<char>> {
    words_where(s, whiteness(s))
}

/// The words joined with one space between each two.
pub open spec fn joined(words: Seq<Seq<char>>) -> Seq<char>
    decreases words.len(),
{
    if words.len() == 0 {
        Seq::empty()
    } else if words.len() == 1 {
        words[0]
    } else {
        joined(words.drop_last()) + seq![' '] + words.last()
    }
}

/// Is `word`, which is in lower case, a word for a weight, a slant or a width of a font?
pub open spec fn is_modifier(word: Seq<char>) -> bool {
    ||| word == "bold"@
    ||| word == "italic"@
    ||| word == "regular"@
    ||| word == "light"@
    ||| word == "medium"@
    ||| word == "semibold"@
    ||| word == "thin"@
    ||| word == "black"@
    ||| word == "book"@
    ||| word == "condensed"@
    ||| word == "extra"@
    ||| word == "ultra"@
    ||| word == "demi"@
    ||| word == "heavy"@
    ||| word == "oblique"@
}

/// The family name in the font name `s`, given its words and the lower case of the last of
/// them: where there is more than one word and the last is a modifier, the words before it
/// joined by single spaces; and else `s` as it is.
pub open spec fn family_name_given(
    s: Seq<char>,
    words: Seq<Seq<char>>,
    last_lowered: Seq<char>,
) -> Seq<char> {
    if words.len() > 1 && is_modifier(last_lowered) {
        joined(words.drop_last())
    } else {
        s
    }
}

/// The family name in the font name `s`.
pub open spec fn family_name(s: Seq<char>) -> Seq<char> {
    family_name_given(s, words(s), lowercased(words(s).last()))
}

/// A word ends at the first white character after its start, or with the text.
proof fn lemma_word_end(white: Seq<bool>, k: int)
    requires
        0 <= k <= white.len(),
        forall|j: int| 0 <= j < k ==> !white[j],
        k < white.len() ==> white[k],
    ensures
        word_end(white) == k,
    decreases white.len(),
{
    if white.len() != 0 && k != 0 {
        let t = white.drop_first();
        assert forall|j: int| 0 <= j < k - 1 implies !t[j] by {
            assert(t[j] == white[j + 1]);
        }
        assert(!white[0]);
        lemma_word_end(t, k - 1);
    }
}

/// Is `word`, which is in lower case, a word for a weight, a slant or a width of a font?
pub fn is_font_modifier(word: &str) -> (found: bool)
    ensures
        found == is_modifier(word@),
{
    same_text(word, "bold") || same_text(word, "italic") || same_text(word, "regular")
        || same_text(word, "light") || same_text(word, "medium") || same_text(word, "semibold")
        || same_text(word, "thin") || same_text(word, "black") || same_text(word, "book")
        || same_text(word, "condensed") || same_text(word, "extra") || same_text(word, "ultra")
        || same_text(word, "demi") || same_text(word, "heavy") || same_text(word, "oblique")
}

/// The first `count` of the words, joined with one space between each two.
pub fn join_words(words: &Vec<String>, count: usize) -> (out: String)
    requires
        count <= words.len(),
    ensures
        out@ == joined(words@.map_values(|w: String| w@).take(count as int)),
{
    let ghost all = words@.map_values(|w: String| w@);
    let mut out = String::new();
    let mut i: usize = 0;
    assert(all.take(0).len() == 0);
    while i < count
        invariant
            i <= count <= words.len(),
            all == words@.map_values(|w: String| w@),
            out@ == joined(all.take(i as int)),
        decreases count - i,
    {
        proof {
            let next = all.take(i + 1);
            assert(next.drop_last() == all.take(i as int));
            assert(next.last() == words@[i as int]@);
            if i == 0 {
                assert(next[0] == words@[0]@);
                assert(out@ + words@[0]@ == words@[0]@);
            }
        }
        if i > 0 {
            out.push(' ');
            assert(out@ == joined(all.take(i as int)) + seq![' ']);
        }
        out.append(words[i].as_str());
        i += 1;
    }
    out
}

/// The words of `chars`, of which `white` says which are white.
pub fn split_where(chars: &Vec<char>, white: &Vec<bool>) -> (out: Vec<String>)
    requires
        chars.len() == white.len(),
    ensures
        out@.map_values(|w: String| w@) == words_where(chars@, white@),
{
    let mut out: Vec<String> = Vec::new();
    let mut i: usize = 0;
    assert(chars@.skip(0) == chars@);
    assert(white@.skip(0) == white@);
    while i < chars.len()
        invariant
            i <= chars.len() == white.len(),
            out@.map_values(|w: String| w@) + words_where(
                chars@.skip(i as int),
                white@.skip(i as int),
            ) == words_where(chars@, white@),
        decreases chars.len() - i,
    {
        let ghost rest = chars@.skip(i as int);
        let ghost rest_white = white@.skip(i as int);
        assert(rest_white[0] == white@[i as int]);
        if white[i] {
            assert(rest.drop_first() == chars@.skip(i + 1));
            assert(rest_white.drop_first() == white@.skip(i + 1));
            i += 1;
        } else {
            let mut j: usize = i + 1;
            while j < chars.len() && !white[j]
                invariant
                    i < j <= chars.len() == white.len(),
                    forall|n: int| i <= n < j ==> !white@[n],
                decreases chars.len() - j,
            {
                j += 1;
            }
            let word = string_of(chars, i, j);
            proof {
                lemma_word_end(rest_white, j - i);
                assert(rest.take(j - i) == chars@.subrange(i as int, j as int));
                assert(rest.skip(j - i) == chars@.skip(j as int));
                assert(rest_white.skip(j - i) == white@.skip(j as int));
                let before = out@.map_values(|w: String| w@);
                let after = words_where(chars@.skip(j as int), white@.skip(j as int));
                assert(out@.push(word).map_values(|w: String| w@) == before + seq![word@]);
                assert(before + seq![word@] + after == before + (seq![word@] + after));
            }
            out.push(word);
            i = j;
        }
    }
    proof {
        let before = out@.map_values(|w: String| w@);
        assert(white@.skip(chars.len() as int).len() == 0);
        assert(before + Seq::<Seq<char>>::empty() == before);
    }
    out
}

/// The words of `s`.
pub fn split_words(s: &str) -> (out: Vec<String>)
    ensures
        out@.map_values(|w: String| w@) == words(s@),
{
    let chars = chars_of(s);
    let mut white: Vec<bool> = Vec::new();
    let mut i: usize = 0;
    while i < chars.len()
        invariant
            i <= chars.len(),
            white@.len() == i,
            forall|n: int| 0 <= n < i ==> white@[n] == unicode_whitespace(chars@[n]),
        decreases chars.len() - i,
    {
        white.push(is_whitespace(chars[i]));
        i += 1;
    }
    assert(white@ == whiteness(chars@));
    split_where(&chars, &white)
}

/// The family name in the font name `s`, given its words and the lower case of the last of
/// them.
pub fn family_name_of(s: &str, words: &Vec<String>, last_lowered: &str) -> (out: String)
    ensures
        out@ == family_name_given(s@, words@.map_values(|w: String| w@), last_lowered@),
{
    assert(words@.map_values(|w: String| w@).len() == words@.len());
    if words.len() > 1 && is_font_modifier(last_lowered) {
        let ghost all = words@.map_values(|w: String| w@);
        assert(all.take(words.len() - 1) == all.drop_last());
        join_words(words, words.len() - 1)
    } else {
        String::from_str(s)
    }
}

/// Takes the style word off the end of a font name: `DejaVu Sans Bold` becomes
/// `DejaVu Sans`. A name of one word, or one that ends in another word, is handed back as it
/// is.
pub fn strip_font_modifier(s: &str) -> (out: String)
    ensures
        out@ == family_name(s@),
{
    let parts = split_words(s);
    assert(parts@.map_values(|p: String| p@).len() == parts@.len());
    if parts.len() > 1 {
        let last = to_lowercase(parts[parts.len() - 1].as_str());
        assert(parts@.map_values(|p: String| p@).last() == parts@[parts.len() - 1]@);
        family_name_of(s, &parts, last.as_str())
    } else {
        String::from_str(s)
    }
}

} // verus!

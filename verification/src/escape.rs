//! Escaping of text for markup.
//!
//! The characters that markup reserves (`&`, `<`, `>`, `"`) and the white space that a markup
//! reader may collapse (space, tab) are written as character references. The ampersand is among
//! them because it begins every reference: left as it is, text that already looks like a
//! reference would be read back as something else. In the value of an attribute a space may
//! stand for itself.

use vstd::prelude::*;
use vstd::string::StringExecFns;
use crate::text::chars_of;

verus! {

/// Where escaped text is to stand.
#[derive(Clone, Copy, Debug, PartialEq, Eq, Structural)]
pub enum Place {
    /// Between tags, as character data.
    Content,
    /// Between the quotes of an attribute.
    Attribute,
}

/// The reference `&amp;`.
pub open spec fn amp_ref() -> Seq<char> {
    seq!['&', 'a', 'm', 'p', ';']
}

/// The reference `&lt;`.
pub open spec fn lt_ref() -> Seq<char> {
    seq!['&', 'l', 't', ';']
}

/// The reference `&gt;`.
pub open spec fn gt_ref() -> Seq<char> {
    seq!['&', 'g', 't', ';']
}

/// The reference `&quot;`.
pub open spec fn quot_ref() -> Seq<char> {
    seq!['&', 'q', 'u', 'o', 't', ';']
}

/// The reference `&#32;`, a space.
pub open spec fn space_ref() -> Seq<char> {
    seq!['&', '#', '3', '2', ';']
}

/// The reference `&#9;`, a tab.
pub open spec fn tab_ref() -> Seq<char> {
    seq!['&', '#', '9', ';']
}

/// Must `c` be escaped at `place`?
pub open spec fn is_reserved(c: char, place: Place) -> bool {
    c == '&' || c == '<' || c == '>' || c == '"' || c == '\t' || (c == ' ' && place
        == Place::Content)
}

/// What stands for `c` at `place`: its reference where `c` is reserved there, and `c` itself
/// otherwise.
pub open spec fn escape_char(c: char, place: Place) -> Seq<char> {
    if c == '&' {
        amp_ref()
    } else if c == '<' {
        lt_ref()
    } else if c == '>' {
        gt_ref()
    } else if c == '"' {
        quot_ref()
    } else if c == '\t' {
        tab_ref()
    } else if c == ' ' && place == Place::Content {
        space_ref()
    } else {
        seq![c]
    }
}

/// The escaped form of `s` for `place`: each character replaced by what stands for it.
pub open spec fn escape_for(s: Seq<char>, place: Place) -> Seq<char>
    decreases s.len(),
{
    if s.len() == 0 {
        Seq::empty()
    } else {
        escape_for(s.drop_last(), place) + escape_char(s.last(), place)
    }
}

/// The escaped form of `s` as character data.
pub open spec fn escape(s: Seq<char>) -> Seq<char> {
    escape_for(s, Place::Content)
}

/// The escaped form of `s` as the value of an attribute.
pub open spec fn escape_attribute(s: Seq<char>) -> Seq<char> {
    escape_for(s, Place::Attribute)
}

/// Does `s` begin with `prefix`?
pub open spec fn starts_with(s: Seq<char>, prefix: Seq<char>) -> bool {
    prefix.len() <= s.len() && s.take(prefix.len() as int) == prefix
}

/// The character that the reference at the start of `s` stands for, and the length of that
/// reference; nothing where `s` begins with none of the references that escaping writes.
pub open spec fn reference_at(s: Seq<char>) -> Option<(char, int)> {
    if starts_with(s, amp_ref()) {
        Some(('&', 5))
    } else if starts_with(s, lt_ref()) {
        Some(('<', 4))
    } else if starts_with(s, gt_ref()) {
        Some(('>', 4))
    } else if starts_with(s, quot_ref()) {
        Some(('"', 6))
    } else if starts_with(s, space_ref()) {
        Some((' ', 5))
    } else if starts_with(s, tab_ref()) {
        Some(('\t', 4))
    } else {
        None
    }
}

/// What a markup reader makes of `s`: every character reference that escaping writes is
/// replaced by the character it stands for, and every other character is kept.
pub open spec fn decode(s: Seq<char>) -> Seq<char>
    decreases s.len(),
{
    if s.len() == 0 {
        Seq::empty()
    } else {
        match reference_at(s) {
            Some((c, n)) => seq![c] + decode(s.skip(n)),
            None => seq![s[0]] + decode(s.drop_first()),
        }
    }
}

/// The escaped form of a text begins with what stands for its first character.
proof fn lemma_escape_front(s: Seq<char>, place: Place)
    requires
        s.len() > 0,
    ensures
        escape_for(s, place) == escape_char(s[0], place) + escape_for(s.drop_first(), place),
    decreases s.len(),
{
    if s.len() == 1 {
        assert(s.drop_last() == Seq::<char>::empty());
        assert(s.drop_first() == Seq::<char>::empty());
        assert(escape_for(s, place) == escape_char(s[0], place) + escape_for(
            s.drop_first(),
            place,
        ));
    } else {
        let front = s.drop_last();
        lemma_escape_front(front, place);
        assert(front.drop_first() == s.drop_first().drop_last());
        assert(s.drop_first().last() == s.last());
        assert(escape_for(s, place) == escape_char(s[0], place) + escape_for(
            s.drop_first(),
            place,
        ));
    }
}

/// What begins with `&` and another character than a reference has there, begins with no
/// such reference.
proof fn lemma_not_a_reference(s: Seq<char>, reference: Seq<char>, at: int)
    requires
        0 <= at < reference.len(),
        at < s.len() ==> s[at] != reference[at],
    ensures
        !starts_with(s, reference),
{
    if starts_with(s, reference) {
        assert(s.take(reference.len() as int)[at] == s[at]);
    }
}

/// Escaping round trip: a markup reader makes of the escaped form of any text that very text,
/// wherever the escaped form stands.
pub proof fn lemma_decode_escape(s: Seq<char>, place: Place)
    ensures
        decode(escape_for(s, place)) == s,
    decreases s.len(),
{
    if s.len() > 0 {
        let c = s[0];
        let rest = s.drop_first();
        let head = escape_char(c, place);
        let tail = escape_for(rest, place);
        let e = escape_for(s, place);
        lemma_escape_front(s, place);
        lemma_decode_escape(rest, place);
        assert(e == head + tail);
        assert(e.take(head.len() as int) == head);
        assert(e.skip(head.len() as int) == tail);
        assert(e[0] == head[0]);
        if is_reserved(c, place) {
            assert(e[1] == head[1]);
            assert(e[2] == head[2]);
            if c != '&' {
                lemma_not_a_reference(e, amp_ref(), 1);
            }
            if c != '&' && c != '<' {
                lemma_not_a_reference(e, lt_ref(), 1);
            }
            if c != '&' && c != '<' && c != '>' {
                lemma_not_a_reference(e, gt_ref(), 1);
            }
            if c != '&' && c != '<' && c != '>' && c != '"' {
                lemma_not_a_reference(e, quot_ref(), 1);
            }
            if c == '\t' {
                lemma_not_a_reference(e, space_ref(), 2);
            }
            assert(reference_at(e) == Some((c, head.len() as int)));
        } else {
            assert(head == seq![c]);
            lemma_not_a_reference(e, amp_ref(), 0);
            lemma_not_a_reference(e, lt_ref(), 0);
            lemma_not_a_reference(e, gt_ref(), 0);
            lemma_not_a_reference(e, quot_ref(), 0);
            lemma_not_a_reference(e, space_ref(), 0);
            lemma_not_a_reference(e, tab_ref(), 0);
            assert(reference_at(e) is None);
            assert(e.drop_first() == tail);
        }
        assert(decode(e) == seq![c] + decode(tail));
        assert(seq![c] + rest == s);
    }
}

/// What a text begins with, it still begins with when more text follows it.
proof fn lemma_starts_with_extends(s: Seq<char>, more: Seq<char>, prefix: Seq<char>)
    ensures
        starts_with(s, prefix) ==> starts_with(s + more, prefix),
{
    if starts_with(s, prefix) {
        assert((s + more).take(prefix.len() as int) == s.take(prefix.len() as int));
    }
}

/// Markup safety: the escaped form of any text holds none of `<`, `>`, `"` and tab, nor, as
/// character data, a space; and an ampersand only at the start of a reference that escaping
/// writes. So escaping has happened, and no more than once.
pub proof fn lemma_escaped_is_safe(s: Seq<char>, place: Place)
    ensures
        forall|i: int|
            0 <= i < escape_for(s, place).len() ==> {
                let c = #[trigger] escape_for(s, place)[i];
                c != '<' && c != '>' && c != '"' && c != '\t' && (place == Place::Content ==> c
                    != ' ')
            },
        forall|i: int|
            0 <= i < escape_for(s, place).len() && #[trigger] escape_for(s, place)[i] == '&'
                ==> reference_at(escape_for(s, place).skip(i)) is Some,
    decreases s.len(),
{
    if s.len() > 0 {
        let front = s.drop_last();
        let head = escape_for(front, place);
        let tail = escape_char(s.last(), place);
        let e = escape_for(s, place);
        lemma_escaped_is_safe(front, place);
        assert(e == head + tail);
        assert forall|i: int| 0 <= i < e.len() implies {
            let c = #[trigger] e[i];
            c != '<' && c != '>' && c != '"' && c != '\t' && (place == Place::Content ==> c != ' ')
        } by {
            if i < head.len() {
                assert(e[i] == head[i]);
            } else {
                assert(e[i] == tail[i - head.len()]);
            }
        }
        assert forall|i: int| 0 <= i < e.len() && #[trigger] e[i] == '&' implies reference_at(
            e.skip(i),
        ) is Some by {
            if i < head.len() {
                assert(e[i] == head[i]);
                let inner = head.skip(i);
                assert(e.skip(i) == inner + tail);
                assert(reference_at(inner) is Some);
                lemma_starts_with_extends(inner, tail, amp_ref());
                lemma_starts_with_extends(inner, tail, lt_ref());
                lemma_starts_with_extends(inner, tail, gt_ref());
                lemma_starts_with_extends(inner, tail, quot_ref());
                lemma_starts_with_extends(inner, tail, space_ref());
                lemma_starts_with_extends(inner, tail, tab_ref());
            } else {
                assert(e[i] == tail[i - head.len()]);
                assert(i == head.len());
                assert(e.skip(i) == tail);
                assert(tail.take(tail.len() as int) == tail);
            }
        }
    }
}

/// Appends to `out` what stands for `c` at `place`.
fn push_escaped_char(out: &mut String, c: char, place: Place)
    ensures
        final(out)@ == old(out)@ + escape_char(c, place),
{
    proof {
        reveal_strlit("&amp;");
        reveal_strlit("&lt;");
        reveal_strlit("&gt;");
        reveal_strlit("&quot;");
        reveal_strlit("&#32;");
        reveal_strlit("&#9;");
    }
    if c == '&' {
        out.append("&amp;");
        assert("&amp;"@ == amp_ref());
    } else if c == '<' {
        out.append("&lt;");
        assert("&lt;"@ == lt_ref());
    } else if c == '>' {
        out.append("&gt;");
        assert("&gt;"@ == gt_ref());
    } else if c == '"' {
        out.append("&quot;");
        assert("&quot;"@ == quot_ref());
    } else if c == '\t' {
        out.append("&#9;");
        assert("&#9;"@ == tab_ref());
    } else if c == ' ' && place == Place::Content {
        out.append("&#32;");
        assert("&#32;"@ == space_ref());
    } else {
        out.push(c);
        assert(old(out)@.push(c) == old(out)@ + seq![c]);
    }
}

/// Appends the escaped form of `text` for `place` to `out`.
pub fn push_escaped(out: &mut String, text: &str, place: Place)
    ensures
        final(out)@ == old(out)@ + escape_for(text@, place),
{
    let chars = chars_of(text);
    let mut i: usize = 0;
    assert(old(out)@ + escape_for(chars@.take(0), place) == old(out)@);
    while i < chars.len()
        invariant
            i <= chars.len(),
            chars@ == text@,
            out@ == old(out)@ + escape_for(chars@.take(i as int), place),
        decreases chars.len() - i,
    {
        push_escaped_char(out, chars[i], place);
        proof {
            let next = chars@.take(i + 1);
            assert(next.drop_last() == chars@.take(i as int));
            assert(next.last() == chars@[i as int]);
            assert(out@ == old(out)@ + escape_for(next, place));
        }
        i += 1;
    }
    assert(chars@.take(chars.len() as int) == chars@);
}

/// The escaped form of `text`, fit to stand in markup as character data.
pub fn escape_text(text: &str) -> (out: String)
    ensures
        out@ == escape(text@),
{
    let mut out = String::new();
    push_escaped(&mut out, text, Place::Content);
    assert(out@ == escape(text@));
    out
}

} // verus!

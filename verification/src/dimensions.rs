//! Canvas dimensions in whole pixels, and the two notations they are read from.

use vstd::prelude::*;
use crate::error::SiaError;
use crate::text::{chars_of, parse_u32, parse_u32_spec};

verus! {

/// The width and height of a canvas, in whole pixels.
#[derive(Clone, Copy, Debug, PartialEq, Eq, Structural)]
pub struct Dimensions {
    pub width: u32,
    pub height: u32,
}

/// The index of the first `c` in `s`, or the length of `s` if it holds none.
pub open spec fn find_char(s: Seq<char>, c: char) -> int
    decreases s.len(),
{
    if s.len() == 0 {
        0
    } else if s[0] == c {
        0
    } else {
        1 + find_char(s.drop_first(), c)
    }
}

/// `find_char` is the one index before which no `c` stands and at which one does, or the text
/// ends.
proof fn lemma_find_char(s: Seq<char>, c: char, i: int)
    requires
        0 <= i <= s.len(),
        forall|j: int| 0 <= j < i ==> s[j] != c,
        i < s.len() ==> s[i] == c,
    ensures
        find_char(s, c) == i,
    decreases s.len(),
{
    if s.len() != 0 && i != 0 {
        let t = s.drop_first();
        assert forall|j: int| 0 <= j < i - 1 implies t[j] != c by {
            assert(t[j] == s[j + 1]);
        }
        lemma_find_char(t, c, i - 1);
    }
}

/// The dimensions that the notation `WxH` spells: two unsigned decimal numbers with an `x`
/// between them. What follows a second `x` is not read.
pub open spec fn parse_dimensions(s: Seq<char>) -> Option<Dimensions> {
    let i = find_char(s, 'x');
    if i >= s.len() {
        None
    } else {
        let rest = s.skip(i + 1);
        let j = find_char(rest, 'x');
        match (parse_u32_spec(s.take(i)), parse_u32_spec(rest.take(j))) {
            (Some(width), Some(height)) => Some(Dimensions { width, height }),
            _ => None,
        }
    }
}

/// `s` without any `px` at its end, however often it is repeated there.
pub open spec fn without_px(s: Seq<char>) -> Seq<char>
    decreases s.len(),
{
    if s.len() >= 2 && s[s.len() - 2] == 'p' && s[s.len() - 1] == 'x' {
        without_px(s.take(s.len() - 2))
    } else {
        s
    }
}

/// The number of pixels that a length attribute such as `500px` or `200` spells, and zero
/// where it spells none.
pub open spec fn dimension_value(s: Seq<char>) -> u32 {
    match parse_u32_spec(without_px(s)) {
        Some(v) => v,
        None => 0,
    }
}

/// The index of the first `c` in `chars[from..]`, counted from the start of `chars`, or the
/// length of `chars`.
fn find_from(chars: &Vec<char>, from: usize, c: char) -> (at: usize)
    requires
        from <= chars.len(),
    ensures
        from <= at <= chars.len(),
        at - from == find_char(chars@.skip(from as int), c),
{
    let mut i: usize = from;
    while i < chars.len() && chars[i] != c
        invariant
            from <= i <= chars.len(),
            forall|j: int| from <= j < i ==> chars@[j] != c,
        decreases chars.len() - i,
    {
        i += 1;
    }
    proof {
        lemma_find_char(chars@.skip(from as int), c, i - from);
    }
    i
}

impl Dimensions {
    /// Reads the notation `WxH`.
    pub fn from_str(s: &str) -> (out: Result<Dimensions, SiaError>)
        ensures
            match out {
                Ok(d) => parse_dimensions(s@) == Some(d),
                Err(e) => parse_dimensions(s@) is None && e.is_invalid_config("size"@),
            },
    {
        let chars = chars_of(s);
        let i = find_from(&chars, 0, 'x');
        assert(chars@.skip(0) == chars@);
        if i >= chars.len() {
            return Err(SiaError::invalid_config("size"));
        }
        let j = find_from(&chars, i + 1, 'x');
        let width = parse_u32(&chars, 0, i);
        let height = parse_u32(&chars, i + 1, j);
        proof {
            let rest = chars@.skip(i + 1);
            assert(chars@.subrange(0, i as int) == chars@.take(i as int));
            assert(chars@.subrange(i + 1, j as int) == rest.take(j - (i + 1)));
        }
        match (width, height) {
            (Some(width), Some(height)) => Ok(Dimensions { width, height }),
            _ => Err(SiaError::invalid_config("size")),
        }
    }
}

/// Reads a length attribute such as `500px` or `200` as a number of pixels. What is no such
/// number reads as zero.
pub fn dimension_to_int(s: &str) -> (out: u32)
    ensures
        out == dimension_value(s@),
{
    let chars = chars_of(s);
    let mut end: usize = chars.len();
    assert(chars@.take(end as int) == chars@);
    while end >= 2 && chars[end - 2] == 'p' && chars[end - 1] == 'x'
        invariant
            end <= chars.len(),
            chars@ == s@,
            without_px(chars@) == without_px(chars@.take(end as int)),
        decreases end,
    {
        proof {
            let t = chars@.take(end as int);
            assert(t.take(t.len() - 2) == chars@.take(end - 2));
        }
        end -= 2;
    }
    assert(chars@.take(end as int) == chars@.subrange(0, end as int));
    assert(without_px(chars@.take(end as int)) == chars@.take(end as int));
    match parse_u32(&chars, 0, end) {
        Some(v) => v,
        None => 0,
    }
}

} // verus!

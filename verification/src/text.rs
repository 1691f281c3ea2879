//! The little this crate asks of text: trimming a device name, and telling how
//! a file name begins and ends.

use vstd::prelude::*;
use vstd::string::*;

verus! {

/// Whether `c` has the Unicode property `White_Space`.
pub open spec fn white_space(c: char) -> bool {
    let code = c as u32;
    ||| 0x09 <= code <= 0x0d
    ||| code == 0x20
    ||| code == 0x85
    ||| code == 0xa0
    ||| code == 0x1680
    ||| 0x2000 <= code <= 0x200a
    ||| code == 0x2028
    ||| code == 0x2029
    ||| code == 0x202f
    ||| code == 0x205f
    ||| code == 0x3000
}

/// `s` without the white space at its beginning.
pub open spec fn trimmed_start(s: Seq<char>) -> Seq<char>
    decreases s.len(),
{
    if s.len() > 0 && white_space(s[0]) {
        trimmed_start(s.drop_first())
    } else {
        s
    }
}

/// `s` without the white space at its end.
pub open spec fn trimmed_end(s: Seq<char>) -> Seq<char>
    decreases s.len(),
{
    if s.len() > 0 && white_space(s.last()) {
        trimmed_end(s.drop_last())
    } else {
        s
    }
}

/// `s` without the white space at either end.
pub open spec fn trimmed(s: Seq<char>) -> Seq<char> {
    trimmed_end(trimmed_start(s))
}

/// Whether `c` is white space, as Unicode has it.
pub fn is_white_space(c: char) -> (r: bool)
    ensures
        r == white_space(c),
{
    let code: u32 = c as u32;
    (0x09 <= code && code <= 0x0d) || code == 0x20 || code == 0x85 || code == 0xa0 || code == 0x1680
        || (0x2000 <= code && code <= 0x200a) || code == 0x2028 || code == 0x2029 || code == 0x202f
        || code == 0x205f || code == 0x3000
}

/// `s` without the white space at either end.
pub fn trim(s: &str) -> (r: &str)
    ensures
        r@ == trimmed(s@),
{
    let len: usize = s.unicode_len();
    let mut from: usize = 0;
    assert(s@.subrange(0, len as int) =~= s@);
    while from < len && is_white_space(s.get_char(from))
        invariant
            from <= len,
            len == s@.len(),
            trimmed_start(s@) == trimmed_start(s@.subrange(from as int, len as int)),
        decreases len - from,
    {
        assert(s@.subrange(from as int, len as int).drop_first() =~= s@.subrange(
            from + 1,
            len as int,
        ));
        from = from + 1;
    }
    let mut to: usize = len;
    while from < to && is_white_space(s.get_char(to - 1))
        invariant
            from <= to <= len,
            len == s@.len(),
            trimmed(s@) == trimmed_end(s@.subrange(from as int, to as int)),
        decreases to - from,
    {
        assert(s@.subrange(from as int, to as int).drop_last() =~= s@.subrange(
            from as int,
            to - 1,
        ));
        to = to - 1;
    }
    s.substring_char(from, to)
}

/// Whether `s` begins with `prefix`.
pub fn starts_with(s: &str, prefix: &str) -> (r: bool)
    ensures
        r == prefix@.is_prefix_of(s@),
{
    let len: usize = prefix.unicode_len();
    if s.unicode_len() < len {
        return false;
    }
    let mut at: usize = 0;
    while at < len
        invariant
            at <= len,
            len == prefix@.len(),
            len <= s@.len(),
            forall|i: int| 0 <= i < at ==> s@[i] == prefix@[i],
        decreases len - at,
    {
        if s.get_char(at) != prefix.get_char(at) {
            assert(s@.subrange(0, len as int)[at as int] != prefix@[at as int]);
            return false;
        }
        at = at + 1;
    }
    assert(prefix@ =~= s@.subrange(0, len as int));
    true
}

/// Whether `s` ends with `suffix`.
pub fn ends_with(s: &str, suffix: &str) -> (r: bool)
    ensures
        r == suffix@.is_suffix_of(s@),
{
    let len: usize = suffix.unicode_len();
    let all: usize = s.unicode_len();
    if all < len {
        return false;
    }
    let offset: usize = all - len;
    let mut at: usize = 0;
    while at < len
        invariant
            at <= len,
            len == suffix@.len(),
            offset + len == all,
            all == s@.len(),
            forall|i: int| 0 <= i < at ==> s@[offset + i] == suffix@[i],
        decreases len - at,
    {
        if s.get_char(offset + at) != suffix.get_char(at) {
            assert(s@.subrange(offset as int, s@.len() as int)[at as int] != suffix@[at as int]);
            return false;
        }
        at = at + 1;
    }
    assert(suffix@ =~= s@.subrange(offset as int, s@.len() as int));
    true
}

proof fn lemma_trimmed_start(s: Seq<char>) -> (from: int)
    ensures
        0 <= from <= s.len(),
        trimmed_start(s) == s.skip(from),
        forall|i: int| 0 <= i < from ==> white_space(#[trigger] s[i]),
        from < s.len() ==> !white_space(s[from]),
    decreases s.len(),
{
    if s.len() > 0 && white_space(s[0]) {
        let rest = lemma_trimmed_start(s.drop_first());
        assert(s.drop_first().skip(rest) =~= s.skip(rest + 1));
        assert forall|i: int| 0 <= i < rest + 1 implies white_space(#[trigger] s[i]) by {
            if i > 0 {
                assert(s[i] == s.drop_first()[i - 1]);
            }
        }
        if rest < s.drop_first().len() {
            assert(s[rest + 1] == s.drop_first()[rest]);
        }
        rest + 1
    } else {
        assert(s.skip(0) =~= s);
        0
    }
}

proof fn lemma_trimmed_end(s: Seq<char>) -> (to: int)
    ensures
        0 <= to <= s.len(),
        trimmed_end(s) == s.take(to),
        forall|i: int| to <= i < s.len() ==> white_space(#[trigger] s[i]),
        to > 0 ==> !white_space(s[to - 1]),
    decreases s.len(),
{
    if s.len() > 0 && white_space(s.last()) {
        let to = lemma_trimmed_end(s.drop_last());
        assert(s.drop_last().take(to) =~= s.take(to));
        assert forall|i: int| to <= i < s.len() implies white_space(#[trigger] s[i]) by {
            if i < s.len() - 1 {
                assert(s[i] == s.drop_last()[i]);
            }
        }
        to
    } else {
        assert(s.take(s.len() as int) =~= s);
        s.len() as int
    }
}

/// Whether `r` is the part of `s` from `from` to `to`, with nothing but white
/// space outside it and no white space at its ends.
pub open spec fn is_core(s: Seq<char>, r: Seq<char>, from: int, to: int) -> bool {
    &&& 0 <= from <= to <= s.len()
    &&& r == s.subrange(from, to)
    &&& forall|i: int| 0 <= i < from || to <= i < s.len() ==> white_space(#[trigger] s[i])
    &&& from < to ==> !white_space(s[from]) && !white_space(s[to - 1])
}

/// Trimming takes away the white space at the ends, all of it and nothing else.
pub proof fn law_trim_removes_only_padding(s: Seq<char>)
    ensures
        exists|from: int, to: int| #[trigger] is_core(s, trimmed(s), from, to),
        (forall|i: int| 0 <= i < s.len() ==> white_space(#[trigger] s[i])) <==> trimmed(s).len()
            == 0,
{
    let from = lemma_trimmed_start(s);
    let rest = s.skip(from);
    let len = lemma_trimmed_end(rest);
    let to = from + len;
    assert(rest.take(len) =~= s.subrange(from, to));
    assert forall|i: int| 0 <= i < from || to <= i < s.len() implies white_space(
        #[trigger] s[i],
    ) by {
        if i >= to {
            assert(s[i] == rest[i - from]);
        }
    }
    if from < to {
        assert(rest[len - 1] == s[to - 1]);
    }
    assert(is_core(s, trimmed(s), from, to));
}

/// White space is the characters to which Unicode gives that property, no more and
/// no fewer: the ASCII blanks and controls, the next line, the spaces of all widths,
/// and the line and paragraph separators.
pub proof fn law_white_space_is_unicodes(c: char)
    ensures
        white_space(c) <==> seq![
            '\u{9}', '\u{a}', '\u{b}', '\u{c}', '\u{d}', ' ', '\u{85}', '\u{a0}', '\u{1680}',
            '\u{2000}', '\u{2001}', '\u{2002}', '\u{2003}', '\u{2004}', '\u{2005}', '\u{2006}',
            '\u{2007}', '\u{2008}', '\u{2009}', '\u{200a}', '\u{2028}', '\u{2029}', '\u{202f}',
            '\u{205f}', '\u{3000}',
        ].contains(c),
{
    let all = seq![
        '\u{9}', '\u{a}', '\u{b}', '\u{c}', '\u{d}', ' ', '\u{85}', '\u{a0}', '\u{1680}',
        '\u{2000}', '\u{2001}', '\u{2002}', '\u{2003}', '\u{2004}', '\u{2005}', '\u{2006}',
        '\u{2007}', '\u{2008}', '\u{2009}', '\u{200a}', '\u{2028}', '\u{2029}', '\u{202f}',
        '\u{205f}', '\u{3000}',
    ];
    let code = c as u32;
    if white_space(c) {
        let i: int = if code <= 0x0d {
            code - 0x09
        } else if code == 0x20 {
            5
        } else if code == 0x85 {
            6
        } else if code == 0xa0 {
            7
        } else if code == 0x1680 {
            8
        } else if code <= 0x200a {
            9 + code - 0x2000
        } else if code == 0x2028 {
            20
        } else if code == 0x2029 {
            21
        } else if code == 0x202f {
            22
        } else if code == 0x205f {
            23
        } else {
            24
        };
        assert(0 <= i < all.len());
        assert(all[i] as u32 == code);
        assert(all[i] == c);
    }
}

/// What is left of a text is the part from its first character that is not white
/// space to its last one, both included; of a text with no such character, nothing.
pub proof fn law_trim_keeps_first_to_last(s: Seq<char>, first: int, last: int)
    ensures
        0 <= first <= last < s.len() && !white_space(s[first]) && !white_space(s[last]) && (forall|
            i: int,
        |
            0 <= i < first || last < i < s.len() ==> white_space(#[trigger] s[i])) ==> trimmed(s)
            == s.subrange(first, last + 1),
        (forall|i: int| 0 <= i < s.len() ==> white_space(#[trigger] s[i])) ==> trimmed(s)
            == Seq::<char>::empty(),
{
    law_trim_removes_only_padding(s);
    let (from, to) = choose|from: int, to: int| #[trigger] is_core(s, trimmed(s), from, to);
    if 0 <= first <= last < s.len() && !white_space(s[first]) && !white_space(s[last]) && (forall|
        i: int,
    |
        0 <= i < first || last < i < s.len() ==> white_space(#[trigger] s[i])) {
        assert(from <= first && last < to);
        assert(white_space(s[from]) || from == first);
        assert(white_space(s[to - 1]) || to - 1 == last);
    }
    if forall|i: int| 0 <= i < s.len() ==> white_space(#[trigger] s[i]) {
        assert(trimmed(s) =~= Seq::<char>::empty());
    }
}

} // verus!

//! Small operations on text that the parsers share.

use vstd::prelude::*;

verus! {

/// True for the characters that Unicode gives the property White_Space: the controls from
/// the tab to the carriage return, the space, the next line control, the no-break space, the
/// ogham space mark, the spaces from the en quad to the hair space, the line and the paragraph
/// separator, the narrow no-break space, the medium mathematical space and the ideographic
/// space.
pub open spec fn is_space(c: char) -> bool {
    let code = c as u32;
    ||| 0x09 <= code <= 0x0d
    ||| code == 0x20
    ||| code == 0x85
    ||| code == 0xa0
    ||| code == 0x1680
    ||| 0x2000 <= code <= 0x200a
    ||| code == 0x2028
    ||| code == 0x2029
    ||| code == 0x202f
    ||| code == 0x205f
    ||| code == 0x3000
}

/// The code of a character with an upper-case letter of ASCII replaced by its lower case.
pub open spec fn lower(c: char) -> u32 {
    if 'A' as u32 <= c as u32 <= 'Z' as u32 {
        (c as u32 + 32) as u32
    } else {
        c as u32
    }
}

/// The text with every upper-case letter of ASCII replaced by its lower case, as codes.
pub open spec fn lowered(s: Seq<char>) -> Seq<u32> {
    s.map_values(|c: char| lower(c))
}

/// The value of a digit in base 36, in either case.
pub open spec fn digit36(c: char) -> Option<u32> {
    let l = lower(c);
    if '0' as u32 <= l <= '9' as u32 {
        Some((l - '0' as u32) as u32)
    } else if 'a' as u32 <= l <= 'z' as u32 {
        Some((l - 'a' as u32 + 10) as u32)
    } else {
        None
    }
}

/// The value of a decimal digit.
pub open spec fn digit10(c: char) -> Option<u32> {
    if '0' as u32 <= c as u32 <= '9' as u32 {
        Some((c as u32 - '0' as u32) as u32)
    } else {
        None
    }
}

/// Tells whether a character is white space.
pub fn is_space_char(c: char) -> (r: bool)
    ensures
        r == is_space(c),
{
    let code: u32 = c as u32;
    (0x09 <= code && code <= 0x0d) || code == 0x20 || code == 0x85 || code == 0xa0 || code
        == 0x1680 || (0x2000 <= code && code <= 0x200a) || code == 0x2028 || code == 0x2029
        || code == 0x202f || code == 0x205f || code == 0x3000
}

/// Returns the code of a character, an upper-case letter of ASCII replaced by its lower case.
pub fn lower_char(c: char) -> (r: u32)
    ensures
        r == lower(c),
{
    let code: u32 = c as u32;
    if 'A' as u32 <= code && code <= 'Z' as u32 {
        code + 32
    } else {
        code
    }
}

/// Returns the value of a digit in base 36, in either case.
pub fn digit36_char(c: char) -> (r: Option<u32>)
    ensures
        r == digit36(c),
{
    let l: u32 = lower_char(c);
    if '0' as u32 <= l && l <= '9' as u32 {
        Some(l - '0' as u32)
    } else if 'a' as u32 <= l && l <= 'z' as u32 {
        Some(l - 'a' as u32 + 10)
    } else {
        None
    }
}

/// Returns the value of a decimal digit.
pub fn digit10_char(c: char) -> (r: Option<u32>)
    ensures
        r == digit10(c),
{
    let code: u32 = c as u32;
    if '0' as u32 <= code && code <= '9' as u32 {
        Some(code - '0' as u32)
    } else {
        None
    }
}

/// Returns the characters of a text.
pub fn chars_of(s: &str) -> (v: Vec<char>)
    ensures
        v@ == s@,
{
    let n: usize = s.unicode_len();
    let mut v: Vec<char> = Vec::new();
    let mut i: usize = 0;
    while i < n
        invariant
            n == s@.len(),
            0 <= i <= n,
            v@ == s@.take(i as int),
        decreases n - i,
    {
        v.push(s.get_char(i));
        i += 1;
        assert(v@ =~= s@.take(i as int));
    }
    assert(s@.take(n as int) =~= s@);
    v
}

/// Tells whether two texts are equal but for the case of the letters of ASCII.
pub fn eq_ignore_case(a: &Vec<char>, b: &Vec<char>) -> (r: bool)
    ensures
        r == (lowered(a@) == lowered(b@)),
{
    if a.len() != b.len() {
        assert(lowered(a@).len() != lowered(b@).len());
        return false;
    }
    let n: usize = a.len();
    let mut i: usize = 0;
    while i < n
        invariant
            n == a@.len(),
            n == b@.len(),
            0 <= i <= n,
            forall|j: int| 0 <= j < i ==> lower(#[trigger] a@[j]) == lower(b@[j]),
        decreases n - i,
    {
        if lower_char(a[i]) != lower_char(b[i]) {
            assert(lowered(a@)[i as int] != lowered(b@)[i as int]);
            return false;
        }
        i += 1;
    }
    assert(lowered(a@) =~= lowered(b@));
    true
}

/// Tells whether the text is the literal `lit` but for the case of the letters of ASCII.
pub fn is_word(a: &Vec<char>, lit: &str) -> (r: bool)
    ensures
        r == (lowered(a@) == lowered(lit@)),
{
    let b = chars_of(lit);
    eq_ignore_case(a, &b)
}

/// Tells whether two texts are the same.
pub fn same_text(a: &str, b: &str) -> (r: bool)
    ensures
        r == (a@ == b@),
{
    let x = chars_of(a);
    let y = chars_of(b);
    if x.len() != y.len() {
        return false;
    }
    let n: usize = x.len();
    let mut i: usize = 0;
    while i < n
        invariant
            x@ == a@,
            y@ == b@,
            n == x@.len(),
            n == y@.len(),
            0 <= i <= n,
            forall|j: int| 0 <= j < i ==> x@[j] == y@[j],
        decreases n - i,
    {
        if x[i] != y[i] {
            assert(a@[i as int] != b@[i as int]);
            return false;
        }
        i += 1;
    }
    assert(x@ =~= y@);
    true
}

} // verus!

//! The length of text in UTF-8, and the text that fits a number of bytes.

use vstd::prelude::*;

use crate::text::chars;

verus! {

/// The number of bytes of `s` in UTF-8.
pub open spec fn byte_len(s: Seq<char>) -> nat {
    vstd::utf8::encode_utf8(s).len()
}

/// The number of bytes of one character in UTF-8.
pub open spec fn char_width(c: char) -> nat {
    let u = c as u32;
    if u <= 0x7f {
        1
    } else if u <= 0x7ff {
        2
    } else if u <= 0xffff {
        3
    } else {
        4
    }
}

/// The longest start of `s` that has at most `budget` bytes in UTF-8.
pub open spec fn fitting_prefix(s: Seq<char>, budget: int) -> Seq<char>
    decreases s.len(),
{
    if s.len() == 0 || char_width(s[0]) > budget {
        seq![]
    } else {
        seq![s[0]] + fitting_prefix(s.drop_first(), budget - char_width(s[0]))
    }
}

pub proof fn lemma_byte_len_step(s: Seq<char>)
    requires
        s.len() > 0,
    ensures
        byte_len(s) == char_width(s[0]) + byte_len(s.drop_first()),
{
    vstd::utf8::char_is_scalar(s[0]);
    assert(vstd::utf8::encode_scalar(s[0] as u32).len() == char_width(s[0]));
    assert(vstd::utf8::encode_utf8(s) == vstd::utf8::encode_scalar(s[0] as u32)
        + vstd::utf8::encode_utf8(s.drop_first()));
}

pub proof fn lemma_byte_len_add(a: Seq<char>, b: Seq<char>)
    ensures
        byte_len(a + b) == byte_len(a) + byte_len(b),
    decreases a.len(),
{
    if a.len() == 0 {
        assert(a + b =~= b);
        assert(byte_len(a) == 0);
    } else {
        lemma_byte_len_step(a);
        lemma_byte_len_step(a + b);
        assert((a + b).drop_first() =~= a.drop_first() + b);
        lemma_byte_len_add(a.drop_first(), b);
    }
}

/// The fitting prefix is a prefix, it fits, and one more character would not.
pub proof fn law_fitting_prefix_is_longest(s: Seq<char>, budget: int)
    requires
        budget >= 0,
    ensures
        fitting_prefix(s, budget).is_prefix_of(s),
        byte_len(fitting_prefix(s, budget)) <= budget,
        forall|n: int|
            fitting_prefix(s, budget).len() < n <= s.len() ==> byte_len(#[trigger] s.take(n))
                > budget,
    decreases s.len(),
{
    let p = fitting_prefix(s, budget);
    if s.len() == 0 {
        assert(byte_len(p) == 0);
    } else if char_width(s[0]) > budget {
        assert(byte_len(p) == 0);
        assert forall|n: int| 0 < n <= s.len() implies byte_len(#[trigger] s.take(n)) > budget by {
            lemma_byte_len_step(s.take(n));
        }
    } else {
        let w = char_width(s[0]) as int;
        let rest = s.drop_first();
        law_fitting_prefix_is_longest(rest, budget - w);
        lemma_byte_len_step(p);
        assert(p.drop_first() =~= fitting_prefix(rest, budget - w));
        assert(p =~= s.subrange(0, p.len() as int));
        assert forall|n: int| p.len() < n <= s.len() implies byte_len(#[trigger] s.take(n))
            > budget by {
            lemma_byte_len_step(s.take(n));
            assert(s.take(n).drop_first() =~= rest.take(n - 1));
        }
    }
}

/// The number of bytes of `s` in UTF-8.
pub fn len_in_bytes(s: &str) -> (n: usize)
    ensures
        n == byte_len(s@),
{
    s.as_bytes().len()
}

fn width(c: char) -> (n: usize)
    ensures
        n == char_width(c),
{
    let u: u32 = c as u32;
    if u <= 0x7f {
        1
    } else if u <= 0x7ff {
        2
    } else if u <= 0xffff {
        3
    } else {
        4
    }
}

/// The longest start of `s` that has at most `budget` bytes in UTF-8.
pub fn take_bytes(s: &str, budget: usize) -> (p: String)
    ensures
        p@ == fitting_prefix(s@, budget as int),
{
    let cs = chars::chars_of(s);
    let mut left: usize = budget;
    let mut to: usize = 0;
    assert(s@.skip(0) =~= s@);
    assert(s@.take(0) + fitting_prefix(s@, budget as int) =~= fitting_prefix(s@, budget as int));
    while to < cs.len() && width(cs[to]) <= left
        invariant
            cs@ == s@,
            to <= cs@.len(),
            fitting_prefix(s@, budget as int) == s@.take(to as int) + fitting_prefix(
                s@.skip(to as int),
                left as int,
            ),
        decreases cs@.len() - to,
    {
        let w: usize = width(cs[to]);
        proof {
            assert(s@.skip(to as int).drop_first() =~= s@.skip(to + 1));
            assert(s@.take(to as int) + (seq![s@[to as int]] + fitting_prefix(
                s@.skip(to + 1),
                left - w,
            )) =~= s@.take(to + 1) + fitting_prefix(s@.skip(to + 1), left - w));
        }
        left -= w;
        to += 1;
    }
    assert(fitting_prefix(s@.skip(to as int), left as int) =~= seq![]);
    assert(s@.take(to as int) =~= s@.subrange(0, to as int));
    chars::text_of(&cs, 0, to)
}

/// The byte length of a text is the length of its UTF-8 encoding.
pub proof fn law_byte_len_is_that_of_utf8(s: Seq<char>)
    ensures
        byte_len(s) == vstd::utf8::encode_utf8(s).len(),
{
}

} // verus!

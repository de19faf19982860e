//! Strings in JSON.

use vstd::prelude::*;

verus! {

/// The hexadecimal digit of `d`.
pub open spec fn hex_digit(d: u32) -> char
    recommends
        d < 16,
{
    seq!['0', '1', '2', '3', '4', '5', '6', '7', '8', '9', 'a', 'b', 'c', 'd', 'e', 'f'][d as int]
}

/// How a character is written inside a JSON string.
pub open spec fn json_char(c: char) -> Seq<char> {
    if c == '"' || c == '\\' {
        seq!['\\', c]
    } else if c == '\u{8}' {
        seq!['\\', 'b']
    } else if c == '\t' {
        seq!['\\', 't']
    } else if c == '\n' {
        seq!['\\', 'n']
    } else if c == '\u{c}' {
        seq!['\\', 'f']
    } else if c == '\r' {
        seq!['\\', 'r']
    } else if (c as u32) < 0x20 {
        seq!['\\', 'u', '0', '0', hex_digit(c as u32 / 16), hex_digit(c as u32 % 16)]
    } else {
        seq![c]
    }
}

/// The characters of `s` as they are written inside a JSON string.
pub open spec fn json_chars(s: Seq<char>) -> Seq<char>
    decreases s.len(),
{
    if s.len() == 0 {
        seq![]
    } else {
        json_char(s[0]) + json_chars(s.drop_first())
    }
}

/// `s` as a JSON string.
pub open spec fn json_string(s: Seq<char>) -> Seq<char> {
    seq!['"'] + json_chars(s) + seq!['"']
}

/// `serde_json::to_string` on a string slice. It writes a quotation mark, the characters and a
/// quotation mark; quotation marks, backslashes and the control characters below U+0020 are
/// escaped, all other characters stand as they are. It writes to memory, so it does not fail.
#[verifier::external_body]
pub(crate) fn string_to_json(s: &str) -> (json: String)
    ensures
        json@ == json_string(s@),
{
    serde_json::to_string(s).unwrap()
}

proof fn lemma_hex_digit(a: u32, b: u32)
    requires
        a < 16,
        b < 16,
        hex_digit(a) == hex_digit(b),
    ensures
        a == b,
{
}

/// What a character is written as tells the character, whatever follows.
proof fn lemma_json_char(a: char, b: char, x: Seq<char>, y: Seq<char>)
    requires
        json_char(a) + x == json_char(b) + y,
    ensures
        a == b,
        x == y,
{
    let l = json_char(a) + x;
    let r = json_char(b) + y;
    assert(l[0] == json_char(a)[0] && r[0] == json_char(b)[0]);
    if json_char(a).len() >= 2 && json_char(b).len() >= 2 {
        assert(l[1] == json_char(a)[1] && r[1] == json_char(b)[1]);
        if json_char(a).len() == 6 && json_char(b).len() == 6 {
            assert(l[4] == json_char(a)[4] && r[4] == json_char(b)[4]);
            assert(l[5] == json_char(a)[5] && r[5] == json_char(b)[5]);
            lemma_hex_digit(a as u32 / 16, b as u32 / 16);
            lemma_hex_digit(a as u32 % 16, b as u32 % 16);
        }
    }
    assert(a == b);
    let n = json_char(a).len() as int;
    assert(l.skip(n) =~= x);
    assert(r.skip(n) =~= y);
}

/// Where a JSON string ends and what it says can be read off its start, whatever follows.
pub proof fn law_json_string_is_readable(a: Seq<char>, b: Seq<char>, x: Seq<char>, y: Seq<char>)
    requires
        json_string(a) + x == json_string(b) + y,
    ensures
        a == b,
        x == y,
{
    let q = seq!['"'];
    assert((json_string(a) + x).skip(1) =~= json_chars(a) + (q + x));
    assert((json_string(b) + y).skip(1) =~= json_chars(b) + (q + y));
    lemma_json_chars(a, b, x, y);
}

proof fn lemma_json_chars(a: Seq<char>, b: Seq<char>, x: Seq<char>, y: Seq<char>)
    requires
        json_chars(a) + (seq!['"'] + x) == json_chars(b) + (seq!['"'] + y),
    ensures
        a == b,
        x == y,
    decreases a.len(),
{
    let q = seq!['"'];
    let l = json_chars(a) + (q + x);
    let r = json_chars(b) + (q + y);
    if a.len() == 0 || b.len() == 0 {
        if a.len() > 0 {
            assert(l[0] == json_char(a[0])[0]);
            assert(r[0] == '"');
        }
        if b.len() > 0 {
            assert(r[0] == json_char(b[0])[0]);
            assert(l[0] == '"');
        }
        assert(l.skip(1) =~= x);
        assert(r.skip(1) =~= y);
        assert(a =~= b);
    } else {
        let ra = a.drop_first();
        let rb = b.drop_first();
        assert(l =~= json_char(a[0]) + (json_chars(ra) + (q + x)));
        assert(r =~= json_char(b[0]) + (json_chars(rb) + (q + y)));
        lemma_json_char(a[0], b[0], json_chars(ra) + (q + x), json_chars(rb) + (q + y));
        lemma_json_chars(ra, rb, x, y);
        assert(a =~= seq![a[0]] + ra);
        assert(b =~= seq![b[0]] + rb);
    }
}

} // verus!

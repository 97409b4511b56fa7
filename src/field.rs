use vstd::prelude::*;

verus! {

/// Characters that count as whitespace: the Unicode `White_Space` set, the same
/// set that `char::is_whitespace` tests.
pub open spec fn is_blank(c: char) -> bool {
    let n = c as u32;
    (9 <= n <= 13) || n == 32 || n == 0x85 || n == 0xA0 || n == 0x1680 || (0x2000 <= n
        <= 0x200A) || n == 0x2028 || n == 0x2029 || n == 0x202F || n == 0x205F || n == 0x3000
}

/// Index of the first `:` at or after `i`, or the length if there is none.
pub open spec fn colon_from(line: Seq<char>, i: int) -> int
    decreases line.len() - i,
{
    if i < 0 || i >= line.len() {
        line.len() as int
    } else if line[i] == ':' {
        i
    } else {
        colon_from(line, i + 1)
    }
}

/// Index of the first non-whitespace character at or after `i`, or the length.
pub open spec fn text_from(s: Seq<char>, i: int) -> int
    decreases s.len() - i,
{
    if i < 0 || i >= s.len() {
        s.len() as int
    } else if !is_blank(s[i]) {
        i
    } else {
        text_from(s, i + 1)
    }
}

/// The name of a `name: value` line: everything before the first `:`, or the
/// whole line when it has none.
pub open spec fn field_name(line: Seq<char>) -> Seq<char> {
    line.subrange(0, colon_from(line, 0))
}

/// The value of a `name: value` line: everything after the first `:`, with
/// leading whitespace removed; empty when the line has no `:`.
pub open spec fn field_value(line: Seq<char>) -> Seq<char> {
    let k = colon_from(line, 0);
    if k >= line.len() {
        Seq::empty()
    } else {
        line.subrange(text_from(line, k + 1), line.len() as int)
    }
}

/// Whether `c` is whitespace.
pub fn is_blank_char(c: char) -> (r: bool)
    ensures
        r == is_blank(c),
{
    let n = c as u32;
    (9 <= n && n <= 13) || n == 32 || n == 0x85 || n == 0xA0 || n == 0x1680 || (0x2000 <= n
        && n <= 0x200A) || n == 0x2028 || n == 0x2029 || n == 0x202F || n == 0x205F || n
        == 0x3000
}

/// Whether two strings hold the same characters.
pub fn same_text(a: &str, b: &str) -> (r: bool)
    ensures
        r == (a@ == b@),
{
    let n = a.unicode_len();
    if n != b.unicode_len() {
        return false;
    }
    let mut i: usize = 0;
    while i < n
        invariant
            n == a@.len(),
            n == b@.len(),
            0 <= i <= n,
            forall|j: int| 0 <= j < i ==> a@[j] == b@[j],
        decreases n - i,
    {
        if a.get_char(i) != b.get_char(i) {
            return false;
        }
        i += 1;
    }
    assert(a@ =~= b@);
    true
}

/// Splits a line into its field name and its value (see `field_name` and
/// `field_value`). Any line is accepted: one without `:` is all name.
pub fn parse_field<'a>(message: &'a String) -> (r: (&'a str, &'a str))
    ensures
        r.0@ == field_name(message@),
        r.1@ == field_value(message@),
{
    let line = message.as_str();
    let n = line.unicode_len();
    let mut k: usize = 0;
    while k < n && line.get_char(k) != ':'
        invariant
            n == line@.len(),
            line@ == message@,
            0 <= k <= n,
            colon_from(line@, k as int) == colon_from(line@, 0),
        decreases n - k,
    {
        k += 1;
    }
    let name = line.substring_char(0, k);
    if k == n {
        return (name, line.substring_char(n, n));
    }
    let mut s: usize = k + 1;
    while s < n && is_blank_char(line.get_char(s))
        invariant
            n == line@.len(),
            k < s <= n,
            text_from(line@, s as int) == text_from(line@, k + 1),
        decreases n - s,
    {
        s += 1;
    }
    (name, line.substring_char(s, n))
}

} // verus!

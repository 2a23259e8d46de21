//! Character-sequence helpers shared by the parsers and the string builders.

use vstd::prelude::*;

verus! {

/// `pat` occurs in `s` starting at position `at`.
pub open spec fn occurs_at(s: Seq<char>, at: int, pat: Seq<char>) -> bool {
    &&& 0 <= at
    &&& at + pat.len() <= s.len()
    &&& s.subrange(at, at + pat.len()) == pat
}

/// `at` is the first position at or after `from` where `pat` occurs in `s`.
pub open spec fn is_first_occurrence(s: Seq<char>, from: int, pat: Seq<char>, at: int) -> bool {
    &&& from <= at
    &&& occurs_at(s, at, pat)
    &&& forall|j: int| from <= j < at ==> !occurs_at(s, j, pat)
}

/// The first position at or after `from` where `pat` occurs in `s`, if any.
pub open spec fn find_from(s: Seq<char>, from: int, pat: Seq<char>) -> Option<int> {
    if exists|at: int| is_first_occurrence(s, from, pat, at) {
        Some(choose|at: int| is_first_occurrence(s, from, pat, at))
    } else {
        None
    }
}

/// The first position of the character `c` in `s`, if any.
pub open spec fn index_of(s: Seq<char>, c: char) -> Option<int> {
    find_from(s, 0, seq![c])
}

/// Two first occurrences are the same occurrence.
pub proof fn lemma_first_occurrence_unique(s: Seq<char>, from: int, pat: Seq<char>, a: int, b: int)
    requires
        is_first_occurrence(s, from, pat, a),
        is_first_occurrence(s, from, pat, b),
    ensures
        a == b,
{
    if a < b {
        assert(!occurs_at(s, a, pat));
    } else if b < a {
        assert(!occurs_at(s, b, pat));
    }
}

/// A first occurrence is what `find_from` returns.
pub proof fn lemma_find_from_is(s: Seq<char>, from: int, pat: Seq<char>, at: int)
    requires
        is_first_occurrence(s, from, pat, at),
    ensures
        find_from(s, from, pat) == Some(at),
{
    let c = choose|x: int| is_first_occurrence(s, from, pat, x);
    lemma_first_occurrence_unique(s, from, pat, at, c);
}

/// A single character occurs at `at` exactly when it is the character there.
pub proof fn lemma_occurs_single(s: Seq<char>, at: int, c: char)
    ensures
        occurs_at(s, at, seq![c]) <==> (0 <= at < s.len() && s[at] == c),
{
    if 0 <= at < s.len() && s[at] == c {
        assert(s.subrange(at, at + 1) =~= seq![c]);
    }
    if occurs_at(s, at, seq![c]) {
        assert(s.subrange(at, at + 1)[0] == s[at]);
    }
}

/// Collects the characters of `s` into a vector.
pub fn chars_of(s: &str) -> (r: Vec<char>)
    ensures
        r@ == s@,
{
    let mut r: Vec<char> = Vec::new();
    for c in it: s.chars()
        invariant
            r@ == it.seq().take(it.index() as int),
            it.seq() == s@,
    {
        r.push(c);
    }
    r
}

/// Appends a character to a string (std's `String::push`).
#[verifier::external_body]
pub(crate) fn push_char(s: &mut String, c: char)
    ensures
        final(s)@ == old(s)@.push(c),
{
    s.push(c);
}

/// Appends `chars[from..to]` to `out`.
pub fn push_range(out: &mut String, chars: &Vec<char>, from: usize, to: usize)
    requires
        from <= to <= chars@.len(),
    ensures
        final(out)@ == old(out)@ + chars@.subrange(from as int, to as int),
{
    let mut i = from;
    while i < to
        invariant
            from <= i <= to <= chars@.len(),
            out@ == old(out)@ + chars@.subrange(from as int, i as int),
        decreases to - i,
    {
        push_char(out, chars[i]);
        assert(chars@.subrange(from as int, i + 1) =~= chars@.subrange(from as int, i as int).push(
            chars@[i as int],
        ));
        i = i + 1;
    }
}

/// The string made of `chars[from..to]`.
pub fn string_from_range(chars: &Vec<char>, from: usize, to: usize) -> (r: String)
    requires
        from <= to <= chars@.len(),
    ensures
        r@ == chars@.subrange(from as int, to as int),
{
    let mut r = String::new();
    push_range(&mut r, chars, from, to);
    r
}

/// Appends the characters of `t` to `out`.
pub fn push_str(out: &mut String, t: &str)
    ensures
        final(out)@ == old(out)@ + t@,
{
    out.append(t);
}

/// Whether `pat` occurs in `s` at position `at`.
pub fn occurs_at_exec(s: &Vec<char>, at: usize, pat: &Vec<char>) -> (r: bool)
    ensures
        r == occurs_at(s@, at as int, pat@),
{
    if at > s.len() || pat.len() > s.len() - at {
        return false;
    }
    let n = s.len();
    let mut i: usize = 0;
    while i < pat.len()
        invariant
            n == s@.len(),
            at + pat@.len() <= s@.len(),
            0 <= i <= pat@.len(),
            forall|j: int| 0 <= j < i ==> s@[at + j] == pat@[j],
        decreases pat@.len() - i,
    {
        assert(at + i < n);
        if s[at + i] != pat[i] {
            assert(s@.subrange(at as int, at + pat@.len())[i as int] != pat@[i as int]);
            return false;
        }
        i = i + 1;
    }
    assert(s@.subrange(at as int, at + pat@.len()) =~= pat@);
    true
}

/// The first position at or after `from` where `pat` occurs in `s`.
pub fn find_from_exec(s: &Vec<char>, from: usize, pat: &Vec<char>) -> (r: Option<usize>)
    requires
        pat@.len() > 0 || from <= s@.len(),
    ensures
        r matches Some(at) ==> is_first_occurrence(s@, from as int, pat@, at as int),
        r == (match find_from(s@, from as int, pat@) {
            Some(at) => Some(at as usize),
            None => None::<usize>,
        }),
{
    if pat.len() == 0 {
        proof {
            assert(s@.subrange(from as int, from as int) =~= pat@);
            lemma_find_from_is(s@, from as int, pat@, from as int);
        }
        return Some(from);
    }
    let mut i = from;
    while i < s.len()
        invariant
            pat@.len() > 0,
            from <= i,
            forall|j: int| from <= j < i ==> !occurs_at(s@, j, pat@),
        decreases s@.len() - i,
    {
        if occurs_at_exec(s, i, pat) {
            proof {
                lemma_find_from_is(s@, from as int, pat@, i as int);
            }
            return Some(i);
        }
        i = i + 1;
    }
    assert(find_from(s@, from as int, pat@) is None) by {
        if exists|at: int| is_first_occurrence(s@, from as int, pat@, at) {
            let at = choose|at: int| is_first_occurrence(s@, from as int, pat@, at);
            assert(!occurs_at(s@, at, pat@));
        }
    }
    None
}

} // verus!

verus! {

/// The vector holding `chars[from..to]`.
pub fn vec_range(chars: &Vec<char>, from: usize, to: usize) -> (r: Vec<char>)
    requires
        from <= to <= chars@.len(),
    ensures
        r@ == chars@.subrange(from as int, to as int),
{
    let mut r: Vec<char> = Vec::new();
    let mut i = from;
    while i < to
        invariant
            from <= i <= to <= chars@.len(),
            r@ == chars@.subrange(from as int, i as int),
        decreases to - i,
    {
        r.push(chars[i]);
        assert(chars@.subrange(from as int, i + 1) =~= chars@.subrange(from as int, i as int).push(
            chars@[i as int],
        ));
        i = i + 1;
    }
    r
}

/// Whether two character vectors hold the same characters.
pub fn vec_eq(a: &Vec<char>, b: &Vec<char>) -> (r: bool)
    ensures
        r == (a@ == b@),
{
    if a.len() != b.len() {
        return false;
    }
    let mut i: usize = 0;
    while i < a.len()
        invariant
            a@.len() == b@.len(),
            0 <= i <= a@.len(),
            forall|j: int| 0 <= j < i ==> a@[j] == b@[j],
        decreases a@.len() - i,
    {
        if a[i] != b[i] {
            return false;
        }
        i = i + 1;
    }
    assert(a@ =~= b@);
    true
}

/// Whether the characters of `a` are those of the string `t`.
pub fn vec_eq_str(a: &Vec<char>, t: &str) -> (r: bool)
    ensures
        r == (a@ == t@),
{
    let b = chars_of(t);
    vec_eq(a, &b)
}

/// The first position of `c` in `chars`.
pub fn index_of_exec(chars: &Vec<char>, c: char) -> (r: Option<usize>)
    ensures
        r == (match index_of(chars@, c) {
            Some(at) => Some(at as usize),
            None => None::<usize>,
        }),
        r matches Some(at) ==> at < chars@.len() && chars@[at as int] == c,
{
    let pat = vec![c];
    assert(pat@ =~= seq![c]);
    let r = find_from_exec(chars, 0, &pat);
    proof {
        if let Some(at) = r {
            lemma_occurs_single(chars@, at as int, c);
        }
    }
    r
}

} // verus!

verus! {

/// The character of a decimal digit.
pub open spec fn digit_char(d: int) -> char {
    if d == 0 { '0' }
    else if d == 1 { '1' }
    else if d == 2 { '2' }
    else if d == 3 { '3' }
    else if d == 4 { '4' }
    else if d == 5 { '5' }
    else if d == 6 { '6' }
    else if d == 7 { '7' }
    else if d == 8 { '8' }
    else { '9' }
}

/// The decimal digits of a natural number, without leading zeros.
pub open spec fn decimal_digits(n: nat) -> Seq<char>
    decreases n,
{
    if n < 10 {
        seq![digit_char(n as int)]
    } else {
        decimal_digits(n / 10).push(digit_char((n % 10) as int))
    }
}

/// The decimal representation of an integer.
pub open spec fn decimal(n: int) -> Seq<char> {
    if n < 0 {
        seq!['-'] + decimal_digits((-n) as nat)
    } else {
        decimal_digits(n as nat)
    }
}

/// The character of the decimal digit `d`.
fn digit_exec(d: u64) -> (r: char)
    requires
        d < 10,
    ensures
        r == digit_char(d as int),
{
    if d == 0 { '0' }
    else if d == 1 { '1' }
    else if d == 2 { '2' }
    else if d == 3 { '3' }
    else if d == 4 { '4' }
    else if d == 5 { '5' }
    else if d == 6 { '6' }
    else if d == 7 { '7' }
    else if d == 8 { '8' }
    else { '9' }
}

/// Appends the decimal digits of `n` to `out`.
pub fn push_decimal_digits(out: &mut String, n: u64)
    ensures
        final(out)@ == old(out)@ + decimal_digits(n as nat),
    decreases n,
{
    if n >= 10 {
        push_decimal_digits(out, n / 10);
    }
    push_char(out, digit_exec(n % 10));
    proof {
        if n >= 10 {
            assert(decimal_digits(n as nat) == decimal_digits((n / 10) as nat).push(digit_char((n % 10) as int)));
        } else {
            assert(decimal_digits(n as nat) == seq![digit_char(n as int)]);
        }
    }
    assert(out@ =~= old(out)@ + decimal_digits(n as nat));
}

/// The decimal representation of `n`: a minus sign for negative numbers,
/// then the digits without leading zeros.
pub fn i64_to_string(n: i64) -> (r: String)
    ensures
        r@ == decimal(n as int),
{
    let mut r = String::new();
    if n < 0 {
        push_char(&mut r, '-');
        let m: u64 = if n == i64::MIN {
            9223372036854775808u64
        } else {
            (-n) as u64
        };
        push_decimal_digits(&mut r, m);
    } else {
        push_decimal_digits(&mut r, n as u64);
    }
    assert(r@ =~= decimal(n as int));
    r
}

/// The decimal representation of `n`: the digits without leading zeros.
pub fn u64_to_string(n: u64) -> (r: String)
    ensures
        r@ == decimal(n as int),
{
    let mut r = String::new();
    push_decimal_digits(&mut r, n);
    assert(r@ =~= decimal(n as int));
    r
}

/// The lowercase hexadecimal digit of `d`, which is below 16.
pub open spec fn hex_char(d: int) -> char {
    if d < 10 {
        ('0' as int + d) as char
    } else {
        ('a' as int + d - 10) as char
    }
}

/// How std's `escape_ascii` writes a byte: the usual backslash escapes for
/// tab, carriage return, line feed, backslash and quotes, printable ASCII as
/// itself, and any other byte as `\x` and two lowercase hexadecimal digits.
pub open spec fn escape_byte(b: u8) -> Seq<char> {
    if b == 9 {
        seq!['\\', 't']
    } else if b == 13 {
        seq!['\\', 'r']
    } else if b == 10 {
        seq!['\\', 'n']
    } else if b == 92 {
        seq!['\\', '\\']
    } else if b == 39 {
        seq!['\\', '\'']
    } else if b == 34 {
        seq!['\\', '"']
    } else if 0x20 <= b <= 0x7e {
        seq![b as char]
    } else {
        seq!['\\', 'x', hex_char(b as int / 16), hex_char(b as int % 16)]
    }
}

/// The bytes, each escaped as `escape_ascii` does.
pub open spec fn escape_bytes(bytes: Seq<u8>) -> Seq<char>
    decreases bytes.len(),
{
    if bytes.len() == 0 {
        Seq::empty()
    } else {
        escape_bytes(bytes.drop_last()) + escape_byte(bytes.last())
    }
}

/// The `Debug` rendering of a C string: its escaped bytes between double
/// quotes.
pub open spec fn debug_c_str(bytes: Seq<u8>) -> Seq<char> {
    seq!['"'] + escape_bytes(bytes) + seq!['"']
}

/// The lowercase hexadecimal digit of `d`.
fn hex_char_exec(d: u8) -> (r: char)
    requires
        d < 16,
    ensures
        r == hex_char(d as int),
{
    if d < 10 {
        ((48 + d) as char)
    } else {
        ((87 + d) as char)
    }
}

/// Appends the escaped form of `b` to `out`.
fn push_escaped_byte(out: &mut String, b: u8)
    ensures
        final(out)@ == old(out)@ + escape_byte(b),
{
    let ghost start = out@;
    if b == 9 {
        push_char(out, '\\');
        push_char(out, 't');
    } else if b == 13 {
        push_char(out, '\\');
        push_char(out, 'r');
    } else if b == 10 {
        push_char(out, '\\');
        push_char(out, 'n');
    } else if b == 92 {
        push_char(out, '\\');
        push_char(out, '\\');
    } else if b == 39 {
        push_char(out, '\\');
        push_char(out, '\'');
    } else if b == 34 {
        push_char(out, '\\');
        push_char(out, '"');
    } else if 0x20 <= b && b <= 0x7e {
        push_char(out, b as char);
    } else {
        push_char(out, '\\');
        push_char(out, 'x');
        push_char(out, hex_char_exec(b / 16));
        push_char(out, hex_char_exec(b % 16));
    }
    assert(out@ =~= start + escape_byte(b));
}

/// Appends the `Debug` rendering of the C string with bytes `bytes` to
/// `out`.
pub fn push_debug_c_str(out: &mut String, bytes: &[u8])
    ensures
        final(out)@ == old(out)@ + debug_c_str(bytes@),
{
    let ghost start = out@;
    push_char(out, '"');
    let mut i: usize = 0;
    while i < bytes.len()
        invariant
            0 <= i <= bytes@.len(),
            out@ == start + seq!['"'] + escape_bytes(bytes@.take(i as int)),
        decreases bytes@.len() - i,
    {
        push_escaped_byte(out, bytes[i]);
        assert(bytes@.take(i + 1).drop_last() =~= bytes@.take(i as int));
        i = i + 1;
    }
    assert(bytes@.take(i as int) =~= bytes@);
    push_char(out, '"');
    assert(out@ =~= start + debug_c_str(bytes@));
}

} // verus!

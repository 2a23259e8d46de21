//! The names attributes are given: field names turned into camel case or
//! replaced, and keys made fit for the C API.

use vstd::prelude::*;

use crate::text::{chars_of, push_char};

verus! {

/// The ASCII upper case of `c`; other characters are unchanged.
pub open spec fn ascii_upcase(c: char) -> char {
    if 'a' <= c <= 'z' {
        ((c as int) - 32) as char
    } else {
        c
    }
}

/// A character, unless it is a space.
pub open spec fn keep(c: char) -> Seq<char> {
    if c == ' ' {
        Seq::empty()
    } else {
        seq![c]
    }
}

/// `s` in camel case: every underscore followed by a character is dropped
/// and the character put in ASCII upper case; a trailing underscore stays;
/// spaces are dropped.
pub open spec fn camel(s: Seq<char>) -> Seq<char>
    decreases s.len(),
{
    if s.len() == 0 {
        Seq::empty()
    } else if s[0] != '_' {
        keep(s[0]) + camel(s.skip(1))
    } else if s.len() == 1 {
        seq!['_']
    } else {
        keep(ascii_upcase(s[1])) + camel(s.skip(2))
    }
}

/// The ASCII upper case of `c`.
fn upcase(c: char) -> (r: char)
    ensures
        r == ascii_upcase(c),
{
    if 'a' <= c && c <= 'z' {
        let b = c as u32 - 32;
        assert(b < 128);
        ((b as u8) as char)
    } else {
        c
    }
}

/// Appends `c` to `out` unless it is a space.
fn push_kept(out: &mut String, c: char)
    ensures
        final(out)@ == old(out)@ + keep(c),
{
    if c != ' ' {
        push_char(out, c);
    }
    assert(out@ =~= old(out)@ + keep(c));
}

/// Turns the field name `field_name` into camel case.
pub fn to_camel_case(field_name: &mut String)
    ensures
        final(field_name)@ == camel(old(field_name)@),
{
    let chars = chars_of(field_name.as_str());
    let ghost s = chars@;
    let mut out = String::new();
    let mut i: usize = 0;
    let n = chars.len();
    assert(s.skip(0) =~= s);
    assert(out@ + camel(s.skip(0)) =~= camel(s));
    while i < n
        invariant
            s == chars@,
            n == s.len(),
            0 <= i <= n,
            out@ + camel(s.skip(i as int)) == camel(s),
        decreases n - i,
    {
        let ghost rest = s.skip(i as int);
        let ghost before = out@;
        if chars[i] != '_' {
            push_kept(&mut out, chars[i]);
            proof {
                assert(rest.skip(1) =~= s.skip(i + 1));
                assert(out@ + camel(s.skip(i + 1)) =~= before + camel(rest));
            }
            i = i + 1;
        } else if i + 1 == n {
            push_char(&mut out, '_');
            proof {
                assert(rest =~= seq!['_']);
                assert(s.skip(i + 1) =~= Seq::<char>::empty());
                assert(out@ + camel(s.skip(i + 1)) =~= before + camel(rest));
            }
            i = i + 1;
        } else {
            push_kept(&mut out, upcase(chars[i + 1]));
            proof {
                assert(rest[1] == s[i + 1]);
                assert(rest.skip(2) =~= s.skip(i + 2));
                assert(out@ + camel(s.skip(i + 2)) =~= before + camel(rest));
            }
            i = i + 2;
        }
    }
    proof {
        assert(s.skip(i as int) =~= Seq::<char>::empty());
        assert(out@ =~= out@ + camel(s.skip(i as int)));
    }
    *field_name = out;
}

/// A word of a snake-case name: not empty, without underscores or spaces.
pub open spec fn is_word(w: Seq<char>) -> bool {
    &&& w.len() > 0
    &&& forall|k: int| 0 <= k < w.len() ==> w[k] != '_' && w[k] != ' '
}

/// The words after the first one of a snake-case name, each with the
/// underscore before it.
pub open spec fn underscored(words: Seq<Seq<char>>) -> Seq<char>
    decreases words.len(),
{
    if words.len() == 0 {
        Seq::empty()
    } else {
        seq!['_'] + words[0] + underscored(words.skip(1))
    }
}

/// The words joined with underscores.
pub open spec fn snake(words: Seq<Seq<char>>) -> Seq<char> {
    words[0] + underscored(words.skip(1))
}

/// The word with its first character in ASCII upper case.
pub open spec fn capitalized(w: Seq<char>) -> Seq<char> {
    seq![ascii_upcase(w[0])] + w.skip(1)
}

/// The words, each capitalized, one after the other.
pub open spec fn capitalized_words(words: Seq<Seq<char>>) -> Seq<char>
    decreases words.len(),
{
    if words.len() == 0 {
        Seq::empty()
    } else {
        capitalized(words[0]) + capitalized_words(words.skip(1))
    }
}

/// Text without underscores or spaces is kept as it is.
proof fn lemma_camel_plain(a: Seq<char>, b: Seq<char>)
    requires
        forall|k: int| 0 <= k < a.len() ==> a[k] != '_' && a[k] != ' ',
    ensures
        camel(a + b) == a + camel(b),
    decreases a.len(),
{
    if a.len() > 0 {
        assert((a + b)[0] == a[0]);
        assert((a + b).skip(1) =~= a.skip(1) + b);
        lemma_camel_plain(a.skip(1), b);
        assert(a =~= seq![a[0]] + a.skip(1));
    } else {
        assert(a + b =~= b);
    }
}

/// Each underscore before a word goes, and the word is capitalized.
proof fn lemma_camel_underscored(words: Seq<Seq<char>>)
    requires
        forall|i: int| 0 <= i < words.len() ==> is_word(#[trigger] words[i]),
    ensures
        camel(underscored(words)) == capitalized_words(words),
    decreases words.len(),
{
    if words.len() > 0 {
        let w = words[0];
        let rest = words.skip(1);
        let x = underscored(words);
        assert(is_word(w));
        assert(x[0] == '_' && x[1] == w[0]);
        assert(x.skip(2) =~= w.skip(1) + underscored(rest));
        assert(ascii_upcase(w[0]) != ' ');
        assert forall|i: int| 0 <= i < rest.len() implies is_word(#[trigger] rest[i]) by {
            assert(rest[i] == words[i + 1]);
        }
        lemma_camel_underscored(rest);
        lemma_camel_plain(w.skip(1), underscored(rest));
        assert(keep(ascii_upcase(w[0])) =~= seq![ascii_upcase(w[0])]);
        assert(camel(x) =~= capitalized(w) + capitalized_words(rest));
    }
}

/// A snake-case name, words joined with underscores, turns into camel case
/// as its first word followed by each other word capitalized: `field_name`
/// into `fieldName`, `a_b_c` into `aBC`.
pub proof fn lemma_camel_of_snake(words: Seq<Seq<char>>)
    requires
        words.len() > 0,
        forall|i: int| 0 <= i < words.len() ==> is_word(#[trigger] words[i]),
    ensures
        camel(snake(words)) == words[0] + capitalized_words(words.skip(1)),
{
    let rest = words.skip(1);
    assert(is_word(words[0]));
    assert forall|i: int| 0 <= i < rest.len() implies is_word(#[trigger] rest[i]) by {
        assert(rest[i] == words[i + 1]);
    }
    lemma_camel_plain(words[0], underscored(rest));
    lemma_camel_underscored(rest);
}

/// How a field is renamed into an attribute name.
#[derive(Clone, Debug)]
pub enum Rename {
    /// Into camel case.
    CamelCase,
    /// Into the given name.
    Replace(String),
}

/// The view of a renaming.
pub enum SpecRename {
    CamelCase,
    Replace(Seq<char>),
}

impl View for Rename {
    type V = SpecRename;

    open spec fn view(&self) -> SpecRename {
        match self {
            Rename::CamelCase => SpecRename::CamelCase,
            Rename::Replace(s) => SpecRename::Replace(s@),
        }
    }
}

/// The name `name` renamed by `r`.
pub open spec fn renamed(r: SpecRename, name: Seq<char>) -> Seq<char> {
    match r {
        SpecRename::CamelCase => camel(name),
        SpecRename::Replace(s) => s,
    }
}

impl Rename {
    /// Renames the field name `field_name`.
    pub fn apply(self, field_name: &mut String)
        ensures
            final(field_name)@ == renamed(self@, old(field_name)@),
    {
        match self {
            Rename::CamelCase => to_camel_case(field_name),
            Rename::Replace(s) => {
                *field_name = s;
            },
        }
    }
}

/// The bytes of a key with each NUL byte replaced by the UTF-8 encoding of
/// U+FFFD, so that it can be made into a C string.
pub open spec fn nul_free(bytes: Seq<u8>) -> Seq<u8>
    decreases bytes.len(),
{
    if bytes.len() == 0 {
        Seq::empty()
    } else {
        nul_free(bytes.drop_last()) + if bytes.last() == 0 {
            seq![0xEFu8, 0xBFu8, 0xBDu8]
        } else {
            seq![bytes.last()]
        }
    }
}

/// The pairs of a hash map being written as an attribute set: the buffer
/// of the C string of the current key.
pub struct HashMapPairs {
    key: Vec<u8>,
}

impl HashMapPairs {
    /// The bytes of the current key, with the terminating NUL.
    pub closed spec fn spec_key(&self) -> Seq<u8> {
        self.key@
    }

    /// An empty key buffer.
    pub fn new() -> (r: HashMapPairs)
        ensures
            r.spec_key().len() == 0,
    {
        HashMapPairs { key: Vec::new() }
    }

    /// The bytes of the current key, with the terminating NUL.
    pub fn key_bytes(&self) -> (r: &[u8])
        ensures
            r@ == self.spec_key(),
    {
        self.key.as_slice()
    }

    /// Makes `key` the current key: its bytes, NUL bytes replaced by
    /// U+FFFD, followed by a NUL.
    pub fn store_key(&mut self, key: &str)
        ensures
            final(self).spec_key() == nul_free(vstd::utf8::encode_utf8(key@)).push(0u8),
    {
        self.key.clear();
        let bytes = key.as_bytes();
        let mut i: usize = 0;
        assert(nul_free(bytes@.take(0)) =~= Seq::<u8>::empty());
        while i < bytes.len()
            invariant
                0 <= i <= bytes@.len(),
                self.key@ == nul_free(bytes@.take(i as int)),
            decreases bytes@.len() - i,
        {
            let b = bytes[i];
            if b == 0 {
                self.key.push(0xEFu8);
                self.key.push(0xBFu8);
                self.key.push(0xBDu8);
            } else {
                self.key.push(b);
            }
            proof {
                let t = bytes@.take(i + 1);
                assert(t.drop_last() =~= bytes@.take(i as int));
                assert(t.last() == b);
                assert(self.key@ =~= nul_free(t));
            }
            i = i + 1;
        }
        assert(bytes@.take(i as int) =~= bytes@);
        self.key.push(0u8);
    }
}

} // verus!

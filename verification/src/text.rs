//! Text primitives shared by the parser and the encoder: conversions between
//! strings and character vectors, decimal numerals, and splitting on a
//! separator.

use vstd::prelude::*;
use vstd::string::*;
use vstd::utf8::*;

verus! {

/// Believed, not proved: `String::push` appends the character to the string.
pub assume_specification[ String::push ](s: &mut String, c: char)
    ensures
        final(s)@ == old(s)@.push(c),
;

/// Believed, not proved: `std::str::from_utf8` succeeds exactly on well-formed
/// UTF-8, and the string it returns is the decoding of the bytes.
#[verifier::external_body]
pub(crate) fn utf8_text(bytes: &[u8]) -> (r: Option<&str>)
    ensures
        r is Some <==> valid_utf8(bytes@),
        r matches Some(s) ==> s@ == decode_utf8(bytes@),
{
    match std::str::from_utf8(bytes) {
        Ok(s) => Some(s),
        Err(_) => None,
    }
}

/// The lower-case form of a text, as `str::to_lowercase` computes it.
pub uninterp spec fn lowercase(text: Seq<char>) -> Seq<char>;

/// Believed, not proved: `str::to_lowercase` returns the lower-case form of
/// its argument, a function of the argument alone.
#[verifier::external_body]
pub(crate) fn to_lowercase(text: &str) -> (r: String)
    ensures
        r@ == lowercase(text@),
{
    text.to_lowercase()
}

/// The characters of a string, in order.
pub fn chars_of(s: &str) -> (r: Vec<char>)
    ensures
        r@ == s@,
{
    let mut out: Vec<char> = Vec::new();
    for c in it: s.chars()
        invariant
            it.seq() == s@,
            out@ == it.seq().subrange(0, it.index()),
    {
        out.push(c);
    }
    out
}

/// The string made of the given characters.
pub fn string_of(chars: &Vec<char>) -> (r: String)
    ensures
        r@ == chars@,
{
    let mut out = String::new();
    let mut i: usize = 0;
    while i < chars.len()
        invariant
            i <= chars.len(),
            out@ == chars@.subrange(0, i as int),
        decreases chars.len() - i,
    {
        out.push(chars[i]);
        i += 1;
    }
    out
}

/// The string made of the first `end` of the given characters.
pub fn string_of_prefix(chars: &Vec<char>, end: usize) -> (r: String)
    requires
        end <= chars.len(),
    ensures
        r@ == chars@.subrange(0, end as int),
{
    let mut out = String::new();
    let mut i: usize = 0;
    while i < end
        invariant
            i <= end <= chars.len(),
            out@ == chars@.subrange(0, i as int),
        decreases end - i,
    {
        out.push(chars[i]);
        i += 1;
    }
    out
}

/// Whether two strings hold the same text.
pub fn same_text(a: &str, b: &str) -> (r: bool)
    ensures
        r == (a@ == b@),
{
    let chars = chars_of(a);
    spells(&chars, b)
}

/// Whether the characters spell exactly the given text.
pub fn spells(chars: &Vec<char>, text: &str) -> (r: bool)
    ensures
        r == (chars@ == text@),
{
    let other = chars_of(text);
    let n: usize = chars.len();
    if other.len() != n {
        return false;
    }
    let mut i: usize = 0;
    while i < n
        invariant
            other@ == text@,
            n == other.len(),
            n == chars.len(),
            i <= n,
            chars@.subrange(0, i as int) == other@.subrange(0, i as int),
        decreases n - i,
    {
        if chars[i] != other[i] {
            assert(chars@[i as int] != text@[i as int]);
            return false;
        }
        assert(chars@.subrange(0, i + 1) == chars@.subrange(0, i as int).push(chars@[i as int]));
        assert(other@.subrange(0, i + 1) == other@.subrange(0, i as int).push(other@[i as int]));
        i += 1;
    }
    assert(chars@ == chars@.subrange(0, n as int));
    assert(other@ == other@.subrange(0, n as int));
    true
}

/// The character that writes a decimal digit.
pub open spec fn digit_char(d: nat) -> char {
    if d == 0 {
        '0'
    } else if d == 1 {
        '1'
    } else if d == 2 {
        '2'
    } else if d == 3 {
        '3'
    } else if d == 4 {
        '4'
    } else if d == 5 {
        '5'
    } else if d == 6 {
        '6'
    } else if d == 7 {
        '7'
    } else if d == 8 {
        '8'
    } else {
        '9'
    }
}

/// The decimal numeral of a number: no sign, no leading zero but for zero
/// itself.
pub open spec fn decimal(n: nat) -> Seq<char>
    decreases n,
{
    if n < 10 {
        seq![digit_char(n)]
    } else {
        decimal(n / 10).push(digit_char(n % 10))
    }
}

fn digit(d: u32) -> (c: char)
    requires
        d < 10,
    ensures
        c == digit_char(d as nat),
{
    if d == 0 {
        '0'
    } else if d == 1 {
        '1'
    } else if d == 2 {
        '2'
    } else if d == 3 {
        '3'
    } else if d == 4 {
        '4'
    } else if d == 5 {
        '5'
    } else if d == 6 {
        '6'
    } else if d == 7 {
        '7'
    } else if d == 8 {
        '8'
    } else {
        '9'
    }
}

/// Appends the decimal numeral of `n` to `out`.
pub fn push_decimal(out: &mut String, n: u32)
    ensures
        final(out)@ == old(out)@ + decimal(n as nat),
    decreases n,
{
    if n >= 10 {
        push_decimal(out, n / 10);
    }
    out.push(digit(n % 10));
}

/// Appends the given characters to `out`.
pub fn append_chars(out: &mut String, chars: &Vec<char>)
    ensures
        final(out)@ == old(out)@ + chars@,
{
    let mut i: usize = 0;
    while i < chars.len()
        invariant
            i <= chars.len(),
            out@ == old(out)@ + chars@.subrange(0, i as int),
        decreases chars.len() - i,
    {
        out.push(chars[i]);
        assert(chars@.subrange(0, i + 1) == chars@.subrange(0, i as int).push(chars@[i as int]));
        i += 1;
    }
    assert(chars@ == chars@.subrange(0, chars.len() as int));
}

/// The position of the first occurrence of `x` in `s`, or the length of `s`
/// where there is none.
pub open spec fn first_index<T>(s: Seq<T>, x: T) -> int
    decreases s.len(),
{
    if s.len() == 0 || s[0] == x {
        0
    } else {
        1 + first_index(s.drop_first(), x)
    }
}

/// `first_index` is the one position before which `x` does not occur and at
/// which, inside `s`, it does.
pub proof fn lemma_first_index<T>(s: Seq<T>, x: T, k: int)
    requires
        0 <= k <= s.len(),
        forall|j: int| 0 <= j < k ==> s[j] != x,
        k < s.len() ==> s[k] == x,
    ensures
        first_index(s, x) == k,
    decreases k,
{
    if k > 0 {
        let t = s.drop_first();
        assert forall|j: int| 0 <= j < k - 1 implies t[j] != x by {
            assert(t[j] == s[j + 1]);
        }
        lemma_first_index(t, x, k - 1);
    }
}

/// The pieces of `s` between the occurrences of `sep`: one more piece than
/// there are separators, empty pieces included.
pub open spec fn split(s: Seq<char>, sep: char) -> Seq<Seq<char>>
    decreases s.len(),
{
    let k = first_index(s, sep);
    if 0 <= k < s.len() {
        seq![s.subrange(0, k)] + split(s.subrange(k + 1, s.len() as int), sep)
    } else {
        seq![s]
    }
}

/// A line without the carriage return that ends it, if one does.
pub open spec fn strip_cr(line: Seq<char>) -> Seq<char> {
    if line.len() > 0 && line.last() == '\r' {
        line.drop_last()
    } else {
        line
    }
}

/// The lines of a text. A line ends at a line feed, or at a carriage return
/// directly followed by one; neither belongs to the line. The last line needs
/// no line ending, and the empty text has no line.
pub open spec fn lines(s: Seq<char>) -> Seq<Seq<char>>
    decreases s.len(),
{
    if s.len() == 0 {
        Seq::empty()
    } else {
        let k = first_index(s, '\n');
        if 0 <= k < s.len() {
            seq![strip_cr(s.subrange(0, k))] + lines(s.subrange(k + 1, s.len() as int))
        } else {
            seq![s]
        }
    }
}

/// The pieces one after the other, with nothing between them.
pub open spec fn concat(pieces: Seq<Seq<char>>) -> Seq<char>
    decreases pieces.len(),
{
    if pieces.len() == 0 {
        Seq::empty()
    } else {
        concat(pieces.drop_last()) + pieces.last()
    }
}

/// What a vector of character vectors holds, each taken as a text.
pub open spec fn texts(v: Seq<Vec<char>>) -> Seq<Seq<char>> {
    Seq::new(v.len(), |i: int| v[i]@)
}

/// Splits `text` at every occurrence of `sep`.
pub fn split_on(text: &Vec<char>, sep: char) -> (r: Vec<Vec<char>>)
    ensures
        texts(r@) == split(text@, sep),
{
    let n: usize = text.len();
    let mut pieces: Vec<Vec<char>> = Vec::new();
    let mut cur: Vec<char> = Vec::new();
    let ghost mut start: int = 0;
    let mut i: usize = 0;
    proof {
        assert(text@.subrange(0, n as int) == text@);
        assert(texts(pieces@) == Seq::<Seq<char>>::empty());
        assert(forall|x: Seq<Seq<char>>| Seq::<Seq<char>>::empty() + x == x);
    }
    while i < n
        invariant
            n == text.len(),
            0 <= start <= i <= n,
            cur@ == text@.subrange(start, i as int),
            forall|j: int| start <= j < i ==> text@[j] != sep,
            split(text@, sep) == texts(pieces@) + split(text@.subrange(start, n as int), sep),
        decreases n - i,
    {
        let c: char = text[i];
        if c == sep {
            proof {
                let rest = text@.subrange(start, n as int);
                lemma_first_index(rest, sep, i - start);
                assert(rest.subrange(0, i - start) == cur@);
                assert(rest.subrange(i - start + 1, rest.len() as int) == text@.subrange(
                    i + 1,
                    n as int,
                ));
                assert(texts(pieces@.push(cur)) == texts(pieces@) + seq![cur@]);
                start = i + 1;
            }
            pieces.push(cur);
            cur = Vec::new();
        } else {
            assert(text@.subrange(start, i + 1) == text@.subrange(start, i as int).push(c));
            cur.push(c);
        }
        i += 1;
    }
    proof {
        let rest = text@.subrange(start, n as int);
        lemma_first_index(rest, sep, rest.len() as int);
        assert(rest == cur@);
        assert(texts(pieces@.push(cur)) == texts(pieces@) + seq![cur@]);
    }
    pieces.push(cur);
    pieces
}

/// Splits `text` into its lines.
pub fn split_lines(text: &Vec<char>) -> (r: Vec<Vec<char>>)
    ensures
        texts(r@) == lines(text@),
{
    let n: usize = text.len();
    let mut pieces: Vec<Vec<char>> = Vec::new();
    let mut cur: Vec<char> = Vec::new();
    let ghost mut start: int = 0;
    let mut i: usize = 0;
    proof {
        assert(text@.subrange(0, n as int) == text@);
        assert(texts(pieces@) == Seq::<Seq<char>>::empty());
        assert(forall|x: Seq<Seq<char>>| Seq::<Seq<char>>::empty() + x == x);
    }
    while i < n
        invariant
            n == text.len(),
            0 <= start <= i <= n,
            cur@ == text@.subrange(start, i as int),
            forall|j: int| start <= j < i ==> text@[j] != '\n',
            lines(text@) == texts(pieces@) + lines(text@.subrange(start, n as int)),
        decreases n - i,
    {
        let c: char = text[i];
        if c == '\n' {
            let ghost line = cur@;
            if cur.len() > 0 && cur[cur.len() - 1] == '\r' {
                cur.pop();
            }
            proof {
                let rest = text@.subrange(start, n as int);
                lemma_first_index(rest, '\n', i - start);
                assert(rest.subrange(0, i - start) == line);
                assert(cur@ == strip_cr(line));
                assert(rest.subrange(i - start + 1, rest.len() as int) == text@.subrange(
                    i + 1,
                    n as int,
                ));
                assert(texts(pieces@.push(cur)) == texts(pieces@) + seq![cur@]);
                start = i + 1;
            }
            pieces.push(cur);
            cur = Vec::new();
        } else {
            assert(text@.subrange(start, i + 1) == text@.subrange(start, i as int).push(c));
            cur.push(c);
        }
        i += 1;
    }
    proof {
        let rest = text@.subrange(start, n as int);
        assert(rest == cur@);
        if rest.len() > 0 {
            lemma_first_index(rest, '\n', rest.len() as int);
            assert(texts(pieces@.push(cur)) == texts(pieces@) + seq![cur@]);
        } else {
            assert(texts(pieces@) + Seq::<Seq<char>>::empty() == texts(pieces@));
        }
    }
    if cur.len() > 0 {
        pieces.push(cur);
    }
    pieces
}

} // verus!

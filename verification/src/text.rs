use vstd::prelude::*;
use vstd::utf8::{encode_utf8, encode_scalar};

verus! {

/// Characters with the Unicode `White_Space` property.
pub open spec fn is_white_space(c: char) -> bool {
    let v = c as u32;
    ||| 0x09 <= v <= 0x0d
    ||| v == 0x20
    ||| v == 0x85
    ||| v == 0xa0
    ||| v == 0x1680
    ||| 0x2000 <= v <= 0x200a
    ||| v == 0x2028
    ||| v == 0x2029
    ||| v == 0x202f
    ||| v == 0x205f
    ||| v == 0x3000
}

/// Whether `c` has the Unicode `White_Space` property, as
/// `char::is_whitespace` decides.
pub fn char_is_whitespace(c: char) -> (r: bool)
    ensures
        r == is_white_space(c),
{
    let v = c as u32;
    (0x09 <= v && v <= 0x0d) || v == 0x20 || v == 0x85 || v == 0xa0 || v == 0x1680 || (0x2000 <= v
        && v <= 0x200a) || v == 0x2028 || v == 0x2029 || v == 0x202f || v == 0x205f || v == 0x3000
}

/// `String::push`: appends one character to the end of the string.
#[verifier::external_body]
pub fn push_char(s: &mut String, c: char)
    ensures
        final(s)@ == old(s)@.push(c),
{
    s.push(c)
}

/// The characters of a string slice, in order.
pub fn chars_of(s: &str) -> (r: Vec<char>)
    ensures
        r@ == s@,
{
    broadcast use vstd::string::group_string_axioms;

    let mut out: Vec<char> = Vec::new();
    for c in iter: s.chars()
        invariant
            out@ == iter.seq().take(iter.index() as int),
    {
        out.push(c);
    }
    out
}

/// A string holding exactly the given characters.
pub fn string_of(chars: &[char]) -> (r: String)
    ensures
        r@ == chars@,
{
    let mut out = String::new();
    let mut i: usize = 0;
    while i < chars.len()
        invariant
            i <= chars@.len(),
            out@ == chars@.subrange(0, i as int),
        decreases chars@.len() - i,
    {
        push_char(&mut out, chars[i]);
        assert(chars@.subrange(0, i + 1) =~= chars@.subrange(0, i as int).push(chars@[i as int]));
        i = i + 1;
    }
    assert(chars@.subrange(0, chars@.len() as int) =~= chars@);
    out
}

/// Whether two character sequences are equal.
pub fn chars_eq(a: &[char], b: &[char]) -> (r: bool)
    ensures
        r == (a@ == b@),
{
    if a.len() != b.len() {
        return false;
    }
    let mut i: usize = 0;
    while i < a.len()
        invariant
            a@.len() == b@.len(),
            i <= a@.len(),
            forall|j: int| 0 <= j < i ==> a@[j] == b@[j],
        decreases a@.len() - i,
    {
        if a[i] != b[i] {
            return false;
        }
        i = i + 1;
    }
    assert(a@ =~= b@);
    true
}

/// Whether two string slices hold the same characters.
pub fn str_eq(a: &str, b: &str) -> (r: bool)
    ensures
        r == (a@ == b@),
{
    let x = chars_of(a);
    let y = chars_of(b);
    chars_eq(x.as_slice(), y.as_slice())
}

/// Whether `s` begins with `prefix`.
pub open spec fn has_prefix(s: Seq<char>, prefix: Seq<char>) -> bool {
    prefix.len() <= s.len() && s.subrange(0, prefix.len() as int) == prefix
}

/// Whether the characters of `s` begin with those of `prefix`.
pub fn starts_with_chars(s: &[char], prefix: &[char]) -> (r: bool)
    ensures
        r == has_prefix(s@, prefix@),
{
    if prefix.len() > s.len() {
        return false;
    }
    let mut i: usize = 0;
    while i < prefix.len()
        invariant
            prefix@.len() <= s@.len(),
            i <= prefix@.len(),
            forall|j: int| 0 <= j < i ==> s@[j] == prefix@[j],
        decreases prefix@.len() - i,
    {
        if s[i] != prefix[i] {
            assert(s@.subrange(0, prefix@.len() as int)[i as int] != prefix@[i as int]);
            return false;
        }
        i = i + 1;
    }
    assert(s@.subrange(0, prefix@.len() as int) =~= prefix@);
    true
}

/// Whether the string `s` begins with `prefix`.
pub fn str_starts_with(s: &str, prefix: &str) -> (r: bool)
    ensures
        r == has_prefix(s@, prefix@),
{
    let x = chars_of(s);
    let y = chars_of(prefix);
    starts_with_chars(x.as_slice(), y.as_slice())
}

/// Index of the first character of `s` at or after `i` that is not white
/// space, or the length of `s` when there is none.
pub open spec fn skip_white(s: Seq<char>, i: int) -> int
    decreases s.len() - i,
{
    if i >= s.len() {
        s.len() as int
    } else if is_white_space(s[i]) {
        skip_white(s, i + 1)
    } else {
        i
    }
}

/// One past the last character of `s` before `j` that is not white space,
/// or zero when there is none.
pub open spec fn skip_white_back(s: Seq<char>, j: int) -> int
    decreases j,
{
    if j <= 0 {
        0
    } else if is_white_space(s[j - 1]) {
        skip_white_back(s, j - 1)
    } else {
        j
    }
}

/// `s` without its leading and trailing white space (`str::trim`).
pub open spec fn trim(s: Seq<char>) -> Seq<char> {
    let b = skip_white(s, 0);
    let e = skip_white_back(s, s.len() as int);
    if b >= e {
        Seq::empty()
    } else {
        s.subrange(b, e)
    }
}

/// The characters of `s` without leading and trailing white space.
pub fn trim_chars(s: &[char]) -> (r: Vec<char>)
    ensures
        r@ == trim(s@),
{
    let mut b: usize = 0;
    while b < s.len() && char_is_whitespace(s[b])
        invariant
            b <= s@.len(),
            skip_white(s@, b as int) == skip_white(s@, 0),
        decreases s@.len() - b,
    {
        b = b + 1;
    }
    let mut e: usize = s.len();
    while e > 0 && char_is_whitespace(s[e - 1])
        invariant
            e <= s@.len(),
            skip_white_back(s@, e as int) == skip_white_back(s@, s@.len() as int),
        decreases e,
    {
        e = e - 1;
    }
    let mut out: Vec<char> = Vec::new();
    if b < e {
        let mut i = b;
        while i < e
            invariant
                b <= i <= e,
                e <= s@.len(),
                out@ == s@.subrange(b as int, i as int),
            decreases e - i,
        {
            out.push(s[i]);
            assert(s@.subrange(b as int, i + 1) =~= s@.subrange(b as int, i as int).push(
                s@[i as int],
            ));
            i = i + 1;
        }
    }
    assert(out@ =~= trim(s@));
    out
}

/// The string `s` without leading and trailing white space.
pub fn trim_str(s: &str) -> (r: String)
    ensures
        r@ == trim(s@),
{
    let c = chars_of(s);
    let t = trim_chars(c.as_slice());
    string_of(t.as_slice())
}

/// Number of bytes in the UTF-8 encoding of `c` (`char::len_utf8`).
pub fn utf8_width(c: char) -> (r: usize)
    ensures
        r == encode_scalar(c as u32).len(),
        1 <= r <= 4,
{
    let v = c as u32;
    if v <= 0x7f {
        1
    } else if v <= 0x7ff {
        2
    } else if v <= 0xffff {
        proof {
            assert(!(0xD800 <= v <= 0xDFFF));
        }
        3
    } else {
        4
    }
}

/// Bytes taken by the first `k` characters of `s` in UTF-8.
pub open spec fn utf8_prefix_len(s: Seq<char>, k: int) -> nat {
    encode_utf8(s.subrange(0, k)).len()
}

pub proof fn lemma_encode_utf8_concat(a: Seq<char>, b: Seq<char>)
    ensures
        encode_utf8(a + b).len() == encode_utf8(a).len() + encode_utf8(b).len(),
    decreases a.len(),
{
    if a.len() > 0 {
        lemma_encode_utf8_concat(a.drop_first(), b);
        assert((a + b).drop_first() =~= a.drop_first() + b);
    } else {
        assert(a + b =~= b);
    }
}

/// Extending a prefix by one character adds that character's UTF-8 width,
/// and prefixes never take more bytes than the whole text.
pub proof fn lemma_utf8_prefix_step(s: Seq<char>, k: int)
    requires
        0 <= k < s.len(),
    ensures
        utf8_prefix_len(s, k + 1) == utf8_prefix_len(s, k) + encode_scalar(s[k] as u32).len(),
        utf8_prefix_len(s, k + 1) <= encode_utf8(s).len(),
{
    assert(s.subrange(0, k + 1) =~= s.subrange(0, k) + seq![s[k]]);
    lemma_encode_utf8_concat(s.subrange(0, k), seq![s[k]]);
    assert(seq![s[k]].drop_first() =~= Seq::<char>::empty());
    assert(encode_utf8(Seq::<char>::empty()).len() == 0);
    assert(encode_utf8(seq![s[k]]) == encode_scalar(seq![s[k]][0] as u32) + encode_utf8(
        seq![s[k]].drop_first(),
    ));
    assert(s =~= s.subrange(0, k + 1) + s.subrange(k + 1, s.len() as int));
    lemma_encode_utf8_concat(s.subrange(0, k + 1), s.subrange(k + 1, s.len() as int));
}

/// Longer prefixes take strictly more bytes, so a byte offset names at most
/// one character position.
pub proof fn lemma_utf8_prefix_mono(s: Seq<char>, i: int, j: int)
    requires
        0 <= i <= j <= s.len(),
    ensures
        utf8_prefix_len(s, i) <= utf8_prefix_len(s, j),
        i < j ==> utf8_prefix_len(s, i) < utf8_prefix_len(s, j),
    decreases j - i,
{
    if i < j {
        lemma_utf8_prefix_mono(s, i, j - 1);
        lemma_utf8_prefix_step(s, j - 1);
        assert(encode_scalar(s[j - 1] as u32).len() >= 1);
    }
}

/// Byte offset of character `k` of `chars` in UTF-8.
pub fn utf8_offset(chars: &[char], k: usize) -> (r: usize)
    requires
        k <= chars@.len(),
        encode_utf8(chars@).len() <= usize::MAX,
    ensures
        r == utf8_prefix_len(chars@, k as int),
{
    let mut total: usize = 0;
    let mut i: usize = 0;
    assert(chars@.subrange(0, 0) =~= Seq::<char>::empty());
    while i < k
        invariant
            i <= k <= chars@.len(),
            encode_utf8(chars@).len() <= usize::MAX,
            total == utf8_prefix_len(chars@, i as int),
        decreases k - i,
    {
        proof {
            lemma_utf8_prefix_step(chars@, i as int);
        }
        total = total + utf8_width(chars[i]);
        i = i + 1;
    }
    total
}

/// The character views of a list of string slices.
pub open spec fn str_views(v: Seq<&str>) -> Seq<Seq<char>> {
    v.map_values(|s: &str| s@)
}

/// Whether `arg` is one of `options`.
pub fn contains_str(options: &[&str], arg: &str) -> (r: bool)
    ensures
        r == str_views(options@).contains(arg@),
{
    let mut i: usize = 0;
    while i < options.len()
        invariant
            i <= options@.len(),
            forall|j: int| 0 <= j < i ==> #[trigger] options@[j]@ != arg@,
        decreases options@.len() - i,
    {
        if str_eq(options[i], arg) {
            assert(str_views(options@)[i as int] == arg@);
            return true;
        }
        i = i + 1;
    }
    assert forall|j: int| 0 <= j < str_views(options@).len() implies #[trigger] str_views(
        options@,
    )[j] != arg@ by {
        assert(str_views(options@)[j] == options@[j]@);
    }
    false
}

} // verus!

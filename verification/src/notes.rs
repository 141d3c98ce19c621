use vstd::prelude::*;
use crate::arith::{
    all_digits, decimal, digits_value, lemma_decimal_reads_back, parse_usize, parses_as_usize,
    unsigned_digits,
};
use crate::forms::{ascii_lower, to_ascii_lower};
use crate::text::chars_of;

verus! {

/// What `str::parse::<i32>` gives for `s`: an optional sign and at least
/// one digit, the value within the range of `i32`.
pub open spec fn spec_parse_i32(s: Seq<char>) -> Option<int> {
    if s.len() > 0 && s[0] == '-' {
        let r = s.drop_first();
        if r.len() > 0 && all_digits(r) && digits_value(r) <= 0x8000_0000 {
            Some(-(digits_value(r) as int))
        } else {
            None
        }
    } else {
        let d = unsigned_digits(s);
        if d.len() > 0 && all_digits(d) && digits_value(d) <= 0x7fff_ffff {
            Some(digits_value(d) as int)
        } else {
            None
        }
    }
}

/// Reads a whole number the way `str::parse::<i32>` does.
pub fn parse_i32(s: &[char]) -> (r: Option<i32>)
    ensures
        match spec_parse_i32(s@) {
            Some(v) => r == Some(v as i32),
            None => r is None,
        },
{
    if s.len() > 0 && s[0] == '-' {
        let mut rest: Vec<char> = Vec::new();
        let mut i: usize = 1;
        while i < s.len()
            invariant
                1 <= i <= s@.len(),
                rest@ == s@.subrange(1, i as int),
            decreases s@.len() - i,
        {
            rest.push(s[i]);
            assert(s@.subrange(1, i + 1) =~= s@.subrange(1, i as int).push(s@[i as int]));
            i = i + 1;
        }
        assert(rest@ =~= s@.drop_first());
        if rest.len() > 0 && rest[0] == '+' {
            assert(!all_digits(rest@)) by {
                assert(!crate::arith::is_digit(rest@[0]));
            }
            return None;
        }
        assert(unsigned_digits(rest@) == rest@);
        match parse_usize(rest.as_slice()) {
            None => None,
            Some(v) => {
                if v <= 0x8000_0000 {
                    let w: i64 = v as i64;
                    Some((-w) as i32)
                } else {
                    None
                }
            },
        }
    } else {
        match parse_usize(s) {
            None => None,
            Some(v) => {
                if v <= 0x7fff_ffff {
                    Some(v as i32)
                } else {
                    None
                }
            },
        }
    }
}

/// The semitone of a note letter within its octave, `c` being 0.
pub open spec fn letter_semitone(c: char) -> Option<int> {
    let l = ascii_lower(c);
    if l == 'c' {
        Some(0)
    } else if l == 'd' {
        Some(2)
    } else if l == 'e' {
        Some(4)
    } else if l == 'f' {
        Some(5)
    } else if l == 'g' {
        Some(7)
    } else if l == 'a' {
        Some(9)
    } else if l == 'b' {
        Some(11)
    } else {
        None
    }
}

/// The number of a note name such as `c4`, `fs2` or `Bb3`: a letter, then
/// `s` (sharp) or `b` (flat), then the octave; `a4` is 66, the note of
/// 440 Hz being 69, so that the name `c4` sounds at 220 Hz.
pub open spec fn spec_note_number(name: Seq<char>) -> Option<int> {
    if name.len() == 0 {
        None
    } else {
        match letter_semitone(name[0]) {
            None => None,
            Some(base) => {
                let accidental: int = if name.len() > 1 && name[1] == 's' {
                    1
                } else if name.len() > 1 && name[1] == 'b' {
                    -1
                } else {
                    0
                };
                let rest = if accidental != 0 {
                    name.subrange(2, name.len() as int)
                } else {
                    name.drop_first()
                };
                match spec_parse_i32(rest) {
                    None => None,
                    Some(octave) => Some(57 + (octave - 4) * 12 + base + accidental),
                }
            },
        }
    }
}

/// A note number moved by `k` semitones; none stays none.
pub open spec fn shifted(o: Option<int>, k: int) -> Option<int> {
    match o {
        Some(n) => Some(n + k),
        None => None,
    }
}

proof fn lemma_name_parts(x: char, r: Seq<char>)
    ensures
        (seq![x] + r).len() == r.len() + 1,
        (seq![x] + r)[0] == x,
        (seq![x] + r).drop_first() == r,
        r.len() > 0 ==> (seq![x] + r)[1] == r[0],
        r.len() > 0 ==> (seq![x] + r).subrange(2, r.len() + 1int) == r.drop_first(),
{
    assert((seq![x] + r).drop_first() =~= r);
    if r.len() > 0 {
        assert((seq![x] + r).subrange(2, r.len() + 1int) =~= r.drop_first());
    }
}

/// The note letters follow the scale: whatever follows the letter (an
/// accidental and an octave), `d` is two semitones above `c`, `e` two above
/// `d`, `f` one above `e`, `g` two above `f`, `a` two above `g` and `b` two
/// above `a`; an upper-case letter reads as its lower-case one; and `c4` is
/// note 57 (`a4` being 66).
pub proof fn lemma_note_scale(r: Seq<char>)
    ensures
        spec_note_number(seq!['d'] + r) == shifted(spec_note_number(seq!['c'] + r), 2),
        spec_note_number(seq!['e'] + r) == shifted(spec_note_number(seq!['d'] + r), 2),
        spec_note_number(seq!['f'] + r) == shifted(spec_note_number(seq!['e'] + r), 1),
        spec_note_number(seq!['g'] + r) == shifted(spec_note_number(seq!['f'] + r), 2),
        spec_note_number(seq!['a'] + r) == shifted(spec_note_number(seq!['g'] + r), 2),
        spec_note_number(seq!['b'] + r) == shifted(spec_note_number(seq!['a'] + r), 2),
        spec_note_number(seq!['C'] + r) == spec_note_number(seq!['c'] + r),
        spec_note_number(seq!['D'] + r) == spec_note_number(seq!['d'] + r),
        spec_note_number(seq!['E'] + r) == spec_note_number(seq!['e'] + r),
        spec_note_number(seq!['F'] + r) == spec_note_number(seq!['f'] + r),
        spec_note_number(seq!['G'] + r) == spec_note_number(seq!['g'] + r),
        spec_note_number(seq!['A'] + r) == spec_note_number(seq!['a'] + r),
        spec_note_number(seq!['B'] + r) == spec_note_number(seq!['b'] + r),
        spec_note_number(seq!['c'] + decimal(4)) == Some(57int),
{
    lemma_name_parts('c', r);
    lemma_name_parts('d', r);
    lemma_name_parts('e', r);
    lemma_name_parts('f', r);
    lemma_name_parts('g', r);
    lemma_name_parts('a', r);
    lemma_name_parts('b', r);
    lemma_name_parts('C', r);
    lemma_name_parts('D', r);
    lemma_name_parts('E', r);
    lemma_name_parts('F', r);
    lemma_name_parts('G', r);
    lemma_name_parts('A', r);
    lemma_name_parts('B', r);
    lemma_decimal_reads_back(4);
    lemma_name_parts('c', decimal(4));
    assert(decimal(4) == seq!['4']);
}

/// A sharp (`s`) after the letter raises the note one semitone and a flat
/// (`b`) lowers it one, whatever the letter and the octave.
pub proof fn lemma_note_accidentals(l: char, o: Seq<char>)
    requires
        letter_semitone(l) is Some,
        o.len() == 0 || (o[0] != 's' && o[0] != 'b'),
    ensures
        spec_note_number(seq![l, 's'] + o) == shifted(spec_note_number(seq![l] + o), 1),
        spec_note_number(seq![l, 'b'] + o) == shifted(spec_note_number(seq![l] + o), -1),
{
    lemma_name_parts(l, o);
    lemma_name_parts(l, seq!['s'] + o);
    lemma_name_parts(l, seq!['b'] + o);
    assert(seq![l, 's'] + o =~= seq![l] + (seq!['s'] + o));
    assert(seq![l, 'b'] + o =~= seq![l] + (seq!['b'] + o));
    assert((seq!['s'] + o).drop_first() =~= o);
    assert((seq!['b'] + o).drop_first() =~= o);
}

/// One octave up is twelve semitones up: for every note letter and every
/// octave `n` written in decimal (below the largest `i32`), the note of
/// octave `n + 1` is twelve above the note of octave `n`, and both read.
pub proof fn lemma_note_octaves(l: char, n: nat)
    requires
        letter_semitone(l) is Some,
        n + 1 <= 0x7fff_ffff,
    ensures
        spec_note_number(seq![l] + decimal(n)) is Some,
        spec_note_number(seq![l] + decimal(n + 1)) == shifted(spec_note_number(seq![l] + decimal(n)), 12),
{
    lemma_decimal_reads_back(n);
    lemma_decimal_reads_back(n + 1);
    lemma_name_parts(l, decimal(n));
    lemma_name_parts(l, decimal(n + 1));
    let d0 = decimal(n);
    let d1 = decimal(n + 1);
    assert(crate::arith::is_digit(d0[0]));
    assert(crate::arith::is_digit(d1[0]));
    assert(spec_parse_i32(d0) == Some(n as int));
    assert(spec_parse_i32(d1) == Some((n + 1) as int));
}

/// The number of a note name (see `spec_note_number`); its frequency is
/// 440 Hz times two to the power of (number - 69) / 12.
pub fn note_number(name: &str) -> (r: Option<i64>)
    ensures
        match spec_note_number(name@) {
            Some(n) => r == Some(n as i64),
            None => r is None,
        },
{
    let c = chars_of(name);
    if c.len() == 0 {
        return None;
    }
    let l = to_ascii_lower(c[0]);
    let base: i64 = if l == 'c' {
        0
    } else if l == 'd' {
        2
    } else if l == 'e' {
        4
    } else if l == 'f' {
        5
    } else if l == 'g' {
        7
    } else if l == 'a' {
        9
    } else if l == 'b' {
        11
    } else {
        return None;
    };
    let accidental: i64 = if c.len() > 1 && c[1] == 's' {
        1
    } else if c.len() > 1 && c[1] == 'b' {
        -1
    } else {
        0
    };
    let start: usize = if accidental != 0 {
        2
    } else {
        1
    };
    let mut rest: Vec<char> = Vec::new();
    let mut i: usize = start;
    while i < c.len()
        invariant
            start <= i <= c@.len(),
            start <= c@.len(),
            rest@ == c@.subrange(start as int, i as int),
        decreases c@.len() - i,
    {
        rest.push(c[i]);
        assert(c@.subrange(start as int, i + 1) =~= c@.subrange(start as int, i as int).push(
            c@[i as int],
        ));
        i = i + 1;
    }
    assert(start == 1 ==> rest@ =~= c@.drop_first());
    match parse_i32(rest.as_slice()) {
        None => None,
        Some(octave) => {
            let o: i64 = octave as i64;
            Some(57 + (o - 4) * 12 + base + accidental)
        },
    }
}

} // verus!

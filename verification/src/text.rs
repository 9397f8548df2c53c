//! Character-level text helpers: splitting strings into characters,
//! ASCII case folding, searching, and decimal conversion.  The catalog's
//! statement parser and the SQL type parser are built on these.

use vstd::prelude::*;
use vstd::std_specs::iter::IteratorSpec;

verus! {

/// ASCII lower-casing of one character; anything outside `A..Z` is kept.
pub open spec fn spec_lower_char(c: char) -> char {
    if 'A' <= c && c <= 'Z' {
        (((c as u32) + 32) as u8) as char
    } else {
        c
    }
}

/// ASCII lower-casing of a whole character sequence.
pub open spec fn spec_lower(s: Seq<char>) -> Seq<char> {
    Seq::new(s.len(), |i: int| spec_lower_char(s[i]))
}

/// Index of the first occurrence of `c` in `s`.
pub open spec fn spec_find_char(s: Seq<char>, c: char) -> Option<int>
    decreases s.len(),
{
    if s.len() == 0 {
        None
    } else if s[0] == c {
        Some(0)
    } else {
        match spec_find_char(s.drop_first(), c) {
            Some(i) => Some(i + 1),
            None => None,
        }
    }
}

/// The first occurrence is a match, and nothing before it is.
pub proof fn lemma_find_char(s: Seq<char>, c: char)
    ensures
        match spec_find_char(s, c) {
            Some(i) => 0 <= i < s.len() && s[i] == c && forall|j: int| 0 <= j < i ==> s[j] != c,
            None => forall|j: int| 0 <= j < s.len() ==> s[j] != c,
        },
    decreases s.len(),
{
    if s.len() > 0 && s[0] != c {
        lemma_find_char(s.drop_first(), c);
        match spec_find_char(s.drop_first(), c) {
            Some(i) => {
                assert(s.drop_first()[i] == s[i + 1]);
                assert forall|j: int| 0 <= j < i + 1 implies s[j] != c by {
                    if j > 0 {
                        assert(s.drop_first()[j - 1] != c);
                    }
                }
            },
            None => {
                assert forall|j: int| 0 <= j < s.len() implies s[j] != c by {
                    if j > 0 {
                        assert(s.drop_first()[j - 1] != c);
                    }
                }
            },
        }
    }
}

/// Whether `c` is a decimal digit.
pub open spec fn spec_is_digit(c: char) -> bool {
    '0' <= c && c <= '9'
}

/// Whether `s` consists of decimal digits only.
pub open spec fn spec_all_digits(s: Seq<char>) -> bool {
    forall|i: int| 0 <= i < s.len() ==> spec_is_digit(#[trigger] s[i])
}

/// Numeric value of a digit sequence, most significant digit first.
pub open spec fn spec_digits_val(s: Seq<char>) -> nat
    decreases s.len(),
{
    if s.len() == 0 {
        0nat
    } else {
        (spec_digits_val(s.drop_last()) * 10 + (s.last() as int - 48)) as nat
    }
}

/// Reading one more digit multiplies the prefix value by ten and adds it.
pub proof fn lemma_digits_val_step(s: Seq<char>, k: int)
    requires
        0 <= k < s.len(),
        spec_is_digit(s[k]),
        spec_digits_val(s.subrange(0, k)) >= 0,
    ensures
        spec_digits_val(s.subrange(0, k + 1)) == spec_digits_val(s.subrange(0, k)) * 10 + (
        s[k] as int - 48),
{
    assert(s.subrange(0, k + 1).drop_last() =~= s.subrange(0, k));
    assert(s.subrange(0, k + 1).last() == s[k]);
}

/// A digit string's value is at least the value of any of its prefixes.
pub proof fn lemma_digits_val_monotone(s: Seq<char>, k: int)
    requires
        0 <= k <= s.len(),
        spec_all_digits(s),
    ensures
        spec_digits_val(s) >= spec_digits_val(s.subrange(0, k)),
    decreases s.len() - k,
{
    if k == s.len() {
        assert(s.subrange(0, k) =~= s);
    } else {
        lemma_digits_val_step(s, k);
        lemma_digits_val_monotone(s, k + 1);
    }
}

/// Decimal representation of `n`, most significant digit first.
pub open spec fn spec_decimal(n: nat) -> Seq<char>
    decreases n,
{
    if n < 10 {
        seq![((48 + n) as u8) as char]
    } else {
        spec_decimal(n / 10).push(((48 + n % 10) as u8) as char)
    }
}

/// The characters of `s`, in order.
pub fn chars_of(s: &str) -> (chars: Vec<char>)
    ensures
        chars@ == s@,
{
    let mut iter = s.chars();
    let mut chars: Vec<char> = Vec::new();
    loop
        invariant_except_break
            chars@ + iter.remaining() == s@,
            iter.decrease() is Some,
        ensures
            chars@ == s@,
        decreases iter.decrease()->0,
    {
        match iter.next() {
            Some(c) => {
                chars.push(c);
            },
            None => {
                proof {
                    assert(chars@ =~= s@);
                }
                break ;
            },
        }
    }
    chars
}

/// Relies on `String`'s `FromIterator` over `char`: collecting characters
/// yields a string holding exactly those characters in order.
#[verifier::external_body]
pub fn string_from_chars(chars: &Vec<char>) -> (s: String)
    ensures
        s@ == chars@,
{
    chars.iter().collect()
}

/// Whether two character vectors hold the same characters.
pub fn chars_eq(a: &Vec<char>, b: &Vec<char>) -> (eq: bool)
    ensures
        eq == (a@ == b@),
{
    if a.len() != b.len() {
        return false;
    }
    let mut i: usize = 0;
    while i < a.len()
        invariant
            i <= a@.len(),
            a@.len() == b@.len(),
            forall|j: int| 0 <= j < i ==> a@[j] == b@[j],
        decreases a@.len() - i,
    {
        if a[i] != b[i] {
            return false;
        }
        i = i + 1;
    }
    proof {
        assert(a@ =~= b@);
    }
    true
}

/// Whether the characters of `s` are exactly `chars`.
pub fn chars_eq_str(chars: &Vec<char>, s: &str) -> (eq: bool)
    ensures
        eq == (chars@ == s@),
{
    let other = chars_of(s);
    chars_eq(chars, &other)
}

/// Whether `chars` starts with the characters of `s`.
pub fn chars_start_with(chars: &Vec<char>, s: &str) -> (starts: bool)
    ensures
        starts == (chars@.len() >= s@.len() && chars@.subrange(0, s@.len() as int) == s@),
{
    let prefix = chars_of(s);
    if chars.len() < prefix.len() {
        return false;
    }
    let mut i: usize = 0;
    while i < prefix.len()
        invariant
            i <= prefix@.len(),
            prefix@.len() <= chars@.len(),
            prefix@ == s@,
            forall|j: int| 0 <= j < i ==> chars@[j] == prefix@[j],
        decreases prefix@.len() - i,
    {
        if chars[i] != prefix[i] {
            return false;
        }
        i = i + 1;
    }
    proof {
        assert(chars@.subrange(0, s@.len() as int) =~= s@);
    }
    true
}

/// Index of the first occurrence of `c` in `chars`.
pub fn find_char(chars: &Vec<char>, c: char) -> (found: Option<usize>)
    ensures
        found == match spec_find_char(chars@, c) {
            Some(i) => Some(i as usize),
            None => None::<usize>,
        },
{
    proof {
        lemma_find_char(chars@, c);
    }
    let mut i: usize = 0;
    while i < chars.len()
        invariant
            i <= chars@.len(),
            forall|j: int| 0 <= j < i ==> chars@[j] != c,
            match spec_find_char(chars@, c) {
                Some(k) => 0 <= k < chars@.len() && chars@[k] == c && forall|j: int|
                    0 <= j < k ==> chars@[j] != c,
                None => forall|j: int| 0 <= j < chars@.len() ==> chars@[j] != c,
            },
        decreases chars@.len() - i,
    {
        if chars[i] == c {
            return Some(i);
        }
        i = i + 1;
    }
    None
}

/// The characters of `chars` from `from` (inclusive) to `to` (exclusive).
pub fn sub_chars(chars: &Vec<char>, from: usize, to: usize) -> (sub: Vec<char>)
    requires
        from <= to <= chars@.len(),
    ensures
        sub@ == chars@.subrange(from as int, to as int),
{
    let mut sub: Vec<char> = Vec::new();
    let mut i: usize = from;
    while i < to
        invariant
            from <= i <= to <= chars@.len(),
            sub@.len() == i - from,
            forall|j: int| 0 <= j < sub@.len() ==> sub@[j] == chars@[from + j],
        decreases to - i,
    {
        sub.push(chars[i]);
        i = i + 1;
    }
    proof {
        assert(sub@ =~= chars@.subrange(from as int, to as int));
    }
    sub
}

/// ASCII lower-casing of a character vector.
pub fn to_lower_chars(chars: &Vec<char>) -> (lowered: Vec<char>)
    ensures
        lowered@ == spec_lower(chars@),
{
    let mut lowered: Vec<char> = Vec::new();
    let mut i: usize = 0;
    while i < chars.len()
        invariant
            i <= chars@.len(),
            lowered@.len() == i,
            forall|j: int| 0 <= j < i ==> lowered@[j] == spec_lower_char(chars@[j]),
        decreases chars@.len() - i,
    {
        let c = chars[i];
        if 'A' <= c && c <= 'Z' {
            lowered.push((((c as u32) + 32) as u8) as char);
        } else {
            lowered.push(c);
        }
        i = i + 1;
    }
    proof {
        assert(lowered@ =~= spec_lower(chars@));
    }
    lowered
}

/// Decimal representation of `n`.
pub fn decimal_chars(n: usize) -> (digits: Vec<char>)
    ensures
        digits@ == spec_decimal(n as nat),
    decreases n,
{
    if n < 10 {
        let mut digits: Vec<char> = Vec::new();
        digits.push(((48 + n as u32) as u8) as char);
        proof {
            assert(digits@ =~= spec_decimal(n as nat));
        }
        digits
    } else {
        let mut digits = decimal_chars(n / 10);
        digits.push(((48 + (n % 10) as u32) as u8) as char);
        digits
    }
}

/// Parse a digit string as a `u32`: fails on an empty string, on any
/// non-digit character, and on a value above `u32::MAX`.
pub open spec fn spec_parse_u32(s: Seq<char>) -> Result<u32, ()> {
    if s.len() == 0 || !spec_all_digits(s) || spec_digits_val(s) > u32::MAX {
        Err(())
    } else {
        Ok(spec_digits_val(s) as u32)
    }
}

pub fn parse_u32(chars: &Vec<char>) -> (parsed: Result<u32, ()>)
    ensures
        parsed == spec_parse_u32(chars@),
{
    if chars.len() == 0 {
        return Err(());
    }
    let mut acc: u32 = 0;
    let mut i: usize = 0;
    while i < chars.len()
        invariant
            i <= chars@.len(),
            forall|j: int| 0 <= j < i ==> spec_is_digit(#[trigger] chars@[j]),
            acc == spec_digits_val(chars@.subrange(0, i as int)),
        decreases chars@.len() - i,
    {
        let c = chars[i];
        if c < '0' || c > '9' {
            return Err(());
        }
        let d: u32 = (c as u32) - 48;
        if acc > (u32::MAX - d) / 10 {
            proof {
                lemma_digits_val_step(chars@, i as int);
                if spec_all_digits(chars@) {
                    lemma_digits_val_monotone(chars@, i + 1);
                }
            }
            return Err(());
        }
        proof {
            lemma_digits_val_step(chars@, i as int);
        }
        acc = acc * 10 + d;
        i = i + 1;
    }
    proof {
        assert(chars@.subrange(0, chars@.len() as int) =~= chars@);
    }
    Ok(acc)
}

} // verus!

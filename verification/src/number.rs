//! Numbers as the feeds and the queries write them.

use std::num::ParseIntError;

use vstd::prelude::*;

#[allow(unused_imports)]
use crate::text;

verus! {

/// The error that the standard library gives for a text that is no integer of the wanted type.
#[verifier::external_type_specification]
#[verifier::external_body]
pub struct ExParseIntError(ParseIntError);

pub open spec fn is_digit(c: char) -> bool {
    '0' <= c <= '9'
}

/// The value of a decimal digit.
pub open spec fn digit_value(c: char) -> nat {
    (c as nat - '0' as nat) as nat
}

pub open spec fn all_digits(s: Seq<char>) -> bool {
    forall|i: int| 0 <= i < s.len() ==> is_digit(#[trigger] s[i])
}

/// The number that a sequence of decimal digits denotes.
pub open spec fn digits_value(s: Seq<char>) -> nat
    decreases s.len(),
{
    if s.len() == 0 {
        0
    } else {
        digits_value(s.drop_last()) * 10 + digit_value(s.last())
    }
}

/// The number that a text denotes when it is an optional `+` followed by decimal digits.
pub open spec fn unsigned_value(s: Seq<char>) -> Option<nat> {
    let digits = if s.len() > 0 && s[0] == '+' {
        s.drop_first()
    } else {
        s
    };
    if digits.len() > 0 && all_digits(digits) {
        Some(digits_value(digits))
    } else {
        None
    }
}

/// The number that a text denotes when it is an optional sign followed by decimal digits.
pub open spec fn signed_value(s: Seq<char>) -> Option<int> {
    if s.len() > 0 && s[0] == '-' {
        let digits = s.drop_first();
        if digits.len() > 0 && all_digits(digits) {
            Some(-(digits_value(digits) as int))
        } else {
            None
        }
    } else {
        match unsigned_value(s) {
            Some(n) => Some(n as int),
            None => None,
        }
    }
}

/// What `s` denotes as an `i64`, when it is one.
pub open spec fn i64_of(s: Seq<char>) -> Option<i64> {
    match signed_value(s) {
        Some(n) => if i64::MIN <= n <= i64::MAX {
            Some(n as i64)
        } else {
            None
        },
        None => None,
    }
}

/// What `s` denotes as a `u8`, when it is one.
pub open spec fn u8_of(s: Seq<char>) -> Option<u8> {
    match unsigned_value(s) {
        Some(n) => if n <= u8::MAX {
            Some(n as u8)
        } else {
            None
        },
        None => None,
    }
}

/// What `s` denotes as a `u64`, when it is one.
pub open spec fn u64_of(s: Seq<char>) -> Option<u64> {
    match unsigned_value(s) {
        Some(n) => if n <= u64::MAX {
            Some(n as u64)
        } else {
            None
        },
        None => None,
    }
}

/// The decimal notation of a number has digits alone, and denotes it.
pub proof fn decimal_text_denotes(n: nat)
    ensures
        text::decimal_text(n).len() > 0,
        all_digits(text::decimal_text(n)),
        digits_value(text::decimal_text(n)) == n,
        unsigned_value(text::decimal_text(n)) == Some(n),
    decreases n,
{
    let s = text::decimal_text(n);
    if n < 10 {
        assert(s.drop_last() =~= seq![]);
        assert(digits_value(s.drop_last()) == 0);
    } else {
        decimal_text_denotes(n / 10);
        assert(s.drop_last() =~= text::decimal_text(n / 10));
    }
}

/// `str::parse` for `i64`. The standard library documents that it accepts an optional sign
/// followed by only digits, and fails on any other text and on a value out of range. Of the
/// error nothing is said.
#[verifier::external_body]
pub(crate) fn parse_i64(s: &str) -> (r: Result<i64, ParseIntError>)
    ensures
        r is Ok <==> i64_of(s@) is Some,
        r matches Ok(v) ==> i64_of(s@) == Some(v),
{
    s.parse()
}

/// `str::parse` for `u8`. The standard library documents that it accepts an optional `+`
/// followed by only digits, and fails on any other text and on a value out of range. Of the
/// error nothing is said.
#[verifier::external_body]
pub(crate) fn parse_u8(s: &str) -> (r: Result<u8, ParseIntError>)
    ensures
        r is Ok <==> u8_of(s@) is Some,
        r matches Ok(v) ==> u8_of(s@) == Some(v),
{
    s.parse()
}

/// `str::parse` for `u64`. The standard library documents that it accepts an optional `+`
/// followed by only digits, and fails on any other text and on a value out of range. Of the
/// error nothing is said.
#[verifier::external_body]
pub(crate) fn parse_u64(s: &str) -> (r: Result<u64, ParseIntError>)
    ensures
        r is Ok <==> u64_of(s@) is Some,
        r matches Ok(v) ==> u64_of(s@) == Some(v),
{
    s.parse()
}

/// The end of the run of digits that begins at `from`.
pub open spec fn digits_end(s: Seq<char>, from: int) -> int
    decreases s.len() - from,
{
    if 0 <= from < s.len() && is_digit(s[from]) {
        digits_end(s, from + 1)
    } else {
        from
    }
}

/// The position behind a sign at `from`, or `from` where there is none.
pub open spec fn sign_end(s: Seq<char>, from: int) -> int {
    if 0 <= from < s.len() && (s[from] == '+' || s[from] == '-') {
        from + 1
    } else {
        from
    }
}

/// Nothing is left at `from`, or an `e`, an optional sign and digits up to the end.
pub open spec fn exponent_at(s: Seq<char>, from: int) -> bool {
    ||| from == s.len()
    ||| {
        &&& 0 <= from < s.len()
        &&& (s[from] == 'e' || s[from] == 'E')
        &&& sign_end(s, from + 1) < s.len()
        &&& digits_end(s, sign_end(s, from + 1)) == s.len()
    }
}

/// From `from` on there are digits with at most one point among or around them, at least one
/// digit in all, then an optional exponent up to the end.
pub open spec fn decimal_at(s: Seq<char>, from: int) -> bool {
    let i = digits_end(s, from);
    if i < s.len() && s[i] == '.' {
        let j = digits_end(s, i + 1);
        (i > from || j > i + 1) && exponent_at(s, j)
    } else {
        i > from && exponent_at(s, i)
    }
}

/// `c` is `lower`, a lower-case ASCII letter, or that letter in upper case.
pub open spec fn is_letter(c: char, lower: char) -> bool {
    c == lower || c as int + 32 == lower as int
}

/// From `from` to the end the text spells `word`, in any case.
pub open spec fn word_at(s: Seq<char>, from: int, word: Seq<char>) -> bool {
    &&& s.len() == from + word.len()
    &&& forall|i: int| 0 <= i < word.len() ==> is_letter(s[from + i], #[trigger] word[i])
}

/// The texts that denote a floating point number: an optional sign, then a decimal number with
/// an optional exponent, an infinity or a NaN.
pub open spec fn is_real(s: Seq<char>) -> bool {
    let from = sign_end(s, 0);
    ||| decimal_at(s, from)
    ||| word_at(s, from, seq!['i', 'n', 'f'])
    ||| word_at(s, from, seq!['i', 'n', 'f', 'i', 'n', 'i', 't', 'y'])
    ||| word_at(s, from, seq!['n', 'a', 'n'])
}

proof fn digits_are_no_comma(s: Seq<char>, from: int)
    requires
        0 <= from <= s.len(),
    ensures
        from <= digits_end(s, from) <= s.len(),
        forall|i: int| from <= i < digits_end(s, from) ==> #[trigger] s[i] != ',',
    decreases s.len() - from,
{
    if from < s.len() && is_digit(s[from]) {
        digits_are_no_comma(s, from + 1);
    }
}

proof fn exponent_has_no_comma(s: Seq<char>, from: int)
    requires
        0 <= from <= s.len(),
        exponent_at(s, from),
    ensures
        forall|i: int| from <= i < s.len() ==> #[trigger] s[i] != ',',
{
    if from < s.len() {
        let sign = sign_end(s, from + 1);
        digits_are_no_comma(s, sign);
    }
}

/// The notation of a number holds no comma.
pub proof fn real_has_no_comma(s: Seq<char>)
    requires
        is_real(s),
    ensures
        forall|i: int| 0 <= i < s.len() ==> #[trigger] s[i] != ',',
{
    let from = sign_end(s, 0);
    if decimal_at(s, from) {
        let whole = digits_end(s, from);
        digits_are_no_comma(s, from);
        if whole < s.len() && s[whole] == '.' {
            digits_are_no_comma(s, whole + 1);
            exponent_has_no_comma(s, digits_end(s, whole + 1));
        } else {
            exponent_has_no_comma(s, whole);
        }
    } else {
        let inf = seq!['i', 'n', 'f'];
        let infinity = seq!['i', 'n', 'f', 'i', 'n', 'i', 't', 'y'];
        let nan = seq!['n', 'a', 'n'];
        assert forall|i: int| 0 <= i < s.len() implies #[trigger] s[i] != ',' by {
            if i >= from {
                if word_at(s, from, inf) {
                    assert(is_letter(s[from + (i - from)], inf[i - from]));
                } else if word_at(s, from, infinity) {
                    assert(is_letter(s[from + (i - from)], infinity[i - from]));
                } else {
                    assert(is_letter(s[from + (i - from)], nan[i - from]));
                }
            }
        }
    }
}

/// A floating point number in the notation it was read in. The notation is the one that the
/// standard library documents for reading a floating point number, so that `text` can be read
/// as one.
#[derive(Debug)]
pub struct Real {
    pub text: String,
}

impl Clone for Real {
    fn clone(&self) -> (r: Self)
        ensures
            r@ == self@,
    {
        Real { text: self.text.clone() }
    }
}

impl View for Real {
    type V = Seq<char>;

    open spec fn view(&self) -> Seq<char> {
        self.text@
    }
}

impl DeepView for Real {
    type V = Seq<char>;

    open spec fn deep_view(&self) -> Seq<char> {
        self.text@
    }
}

/// The characters of a text.
fn chars(s: &str) -> (v: Vec<char>)
    ensures
        v@ == s@,
{
    let mut v: Vec<char> = Vec::new();
    for x in it: s.chars()
        invariant
            it.seq() == s@,
            v@ == s@.take(it.index() as int),
    {
        v.push(x);
        assert(v@ =~= s@.take(it.index() + 1));
    }
    assert(s@.take(s@.len() as int) =~= s@);
    v
}

fn scan_digits(v: &Vec<char>, from: usize) -> (end: usize)
    requires
        from <= v@.len(),
    ensures
        end == digits_end(v@, from as int),
        from <= end <= v@.len(),
{
    let mut i: usize = from;
    while i < v.len() && '0' <= v[i] && v[i] <= '9'
        invariant
            from <= i <= v@.len(),
            digits_end(v@, from as int) == digits_end(v@, i as int),
        decreases v@.len() - i,
    {
        i += 1;
    }
    i
}

fn scan_sign(v: &Vec<char>, from: usize) -> (end: usize)
    requires
        from <= v@.len(),
    ensures
        end == sign_end(v@, from as int),
        from <= end <= v@.len(),
{
    if from < v.len() && (v[from] == '+' || v[from] == '-') {
        from + 1
    } else {
        from
    }
}

fn has_exponent(v: &Vec<char>, from: usize) -> (r: bool)
    requires
        from <= v@.len(),
    ensures
        r == exponent_at(v@, from as int),
{
    if from == v.len() {
        return true;
    }
    if v[from] != 'e' && v[from] != 'E' {
        return false;
    }
    let i: usize = scan_sign(v, from + 1);
    i < v.len() && scan_digits(v, i) == v.len()
}

fn has_decimal(v: &Vec<char>, from: usize) -> (r: bool)
    requires
        from <= v@.len(),
    ensures
        r == decimal_at(v@, from as int),
{
    let i: usize = scan_digits(v, from);
    if i < v.len() && v[i] == '.' {
        let j: usize = scan_digits(v, i + 1);
        (i > from || j > i + 1) && has_exponent(v, j)
    } else {
        i > from && has_exponent(v, i)
    }
}

fn spells(c: char, lower: char) -> (r: bool)
    requires
        'a' <= lower <= 'z',
    ensures
        r == is_letter(c, lower),
{
    let x: u32 = c as u32;
    let y: u32 = lower as u32;
    x == y || (x < 128 && x + 32 == y)
}

fn has_word(v: &Vec<char>, from: usize, word: &Vec<char>) -> (r: bool)
    requires
        from <= v@.len(),
        forall|i: int| 0 <= i < word@.len() ==> 'a' <= #[trigger] word@[i] <= 'z',
    ensures
        r == word_at(v@, from as int, word@),
{
    let n: usize = v.len();
    if n - from != word.len() {
        return false;
    }
    for i in 0..word.len()
        invariant
            n == v@.len(),
            v@.len() == from + word@.len(),
            forall|j: int| 0 <= j < word@.len() ==> 'a' <= #[trigger] word@[j] <= 'z',
            forall|j: int| 0 <= j < i ==> is_letter(v@[from + j], #[trigger] word@[j]),
    {
        if !spells(v[from + i], word[i]) {
            return false;
        }
    }
    true
}

impl Real {
    /// Takes a text that denotes a floating point number.
    pub fn parse(s: &str) -> (r: Option<Real>)
        ensures
            r is Some <==> is_real(s@),
            r matches Some(n) ==> n@ == s@,
    {
        let v: Vec<char> = chars(s);
        let from: usize = scan_sign(&v, 0);
        let inf: Vec<char> = vec!['i', 'n', 'f'];
        let infinity: Vec<char> = vec!['i', 'n', 'f', 'i', 'n', 'i', 't', 'y'];
        let nan: Vec<char> = vec!['n', 'a', 'n'];
        assert(inf@ =~= seq!['i', 'n', 'f']);
        assert(infinity@ =~= seq!['i', 'n', 'f', 'i', 'n', 'i', 't', 'y']);
        assert(nan@ =~= seq!['n', 'a', 'n']);
        if has_decimal(&v, from) || has_word(&v, from, &inf) || has_word(&v, from, &infinity)
            || has_word(&v, from, &nan) {
            Some(Real { text: s.to_owned() })
        } else {
            None
        }
    }
}

/// No number begins with the mark of a search.
pub proof fn real_has_no_query_mark(s: Seq<char>)
    requires
        is_real(s),
    ensures
        s.len() > 0,
        s[0] != 'q',
{
    let from = sign_end(s, 0);
    let inf = seq!['i', 'n', 'f'];
    let infinity = seq!['i', 'n', 'f', 'i', 'n', 'i', 't', 'y'];
    let nan = seq!['n', 'a', 'n'];
    if from == 0 {
        if decimal_at(s, from) {
            let end = digits_end(s, 0);
            digits_are_no_comma(s, 0);
        } else if word_at(s, from, inf) {
            assert(is_letter(s[from + 0], inf[0]));
        } else if word_at(s, from, infinity) {
            assert(is_letter(s[from + 0], infinity[0]));
        } else {
            assert(is_letter(s[from + 0], nan[0]));
        }
    }
}

proof fn digits_reach_their_end(s: Seq<char>, from: int, to: int)
    requires
        0 <= from <= to <= s.len(),
        forall|i: int| from <= i < to ==> is_digit(#[trigger] s[i]),
        to == s.len() || !is_digit(s[to]),
    ensures
        digits_end(s, from) == to,
    decreases to - from,
{
    if from < to {
        assert(is_digit(s[from]));
        digits_reach_their_end(s, from + 1, to);
    }
}

/// Digits with a point among them are a number, with or without a sign before them, and so are
/// digits alone.
pub proof fn plain_decimals_are_numbers(whole: Seq<char>, fraction: Seq<char>)
    requires
        whole.len() > 0,
        all_digits(whole),
        all_digits(fraction),
    ensures
        is_real(whole),
        is_real(whole + seq!['.'] + fraction),
        is_real(seq!['-'] + whole),
        is_real(seq!['-'] + (whole + seq!['.'] + fraction)),
{
    let n = whole.len() as int;
    let s = whole + seq!['.'] + fraction;
    assert(is_digit(whole[0]));
    assert(s[0] == whole[0]);
    digits_reach_their_end(whole, 0, n);
    assert forall|i: int| 0 <= i < n implies is_digit(#[trigger] s[i]) by {
        assert(s[i] == whole[i]);
    }
    assert(s[n] == '.');
    digits_reach_their_end(s, 0, n);
    assert forall|i: int| n + 1 <= i < s.len() implies is_digit(#[trigger] s[i]) by {
        assert(s[i] == fraction[i - n - 1]);
    }
    digits_reach_their_end(s, n + 1, s.len() as int);
    let m = seq!['-'] + whole;
    assert forall|i: int| 1 <= i < m.len() implies is_digit(#[trigger] m[i]) by {
        assert(m[i] == whole[i - 1]);
    }
    digits_reach_their_end(m, 1, m.len() as int);
    let t = seq!['-'] + s;
    assert forall|i: int| 1 <= i < n + 1 implies is_digit(#[trigger] t[i]) by {
        assert(t[i] == s[i - 1]);
    }
    assert(t[n + 1] == '.');
    digits_reach_their_end(t, 1, n + 1);
    assert forall|i: int| n + 2 <= i < t.len() implies is_digit(#[trigger] t[i]) by {
        assert(t[i] == s[i - 1]);
    }
    digits_reach_their_end(t, n + 2, t.len() as int);
}

/// An empty text and a text that begins with a letter that no number begins with are no numbers.
pub proof fn other_texts_are_no_numbers(s: Seq<char>)
    ensures
        is_real(s) ==> s.len() > 0 && (is_digit(s[0]) || s[0] == '+' || s[0] == '-' || s[0] == '.'
            || is_letter(s[0], 'i') || is_letter(s[0], 'n')),
{
    if is_real(s) {
        real_has_no_query_mark(s);
        let from = sign_end(s, 0);
        let inf = seq!['i', 'n', 'f'];
        let infinity = seq!['i', 'n', 'f', 'i', 'n', 'i', 't', 'y'];
        let nan = seq!['n', 'a', 'n'];
        if from == 0 && !decimal_at(s, 0) {
            if word_at(s, from, inf) {
                assert(is_letter(s[from + 0], inf[0]));
            } else if word_at(s, from, infinity) {
                assert(is_letter(s[from + 0], infinity[0]));
            } else {
                assert(is_letter(s[from + 0], nan[0]));
            }
        }
    }
}

/// Decimal notation is read back as the number that it was written for, also behind a sign, and the
/// number has to be one of its type.
pub proof fn decimal_notation_is_read_back(n: nat)
    ensures
        n <= 0xff ==> u8_of(text::decimal_text(n)) is Some && u8_of(text::decimal_text(n))->Some_0
            == n,
        n > 0xff ==> u8_of(text::decimal_text(n)) is None,
        n <= 0xffff_ffff_ffff_ffff ==> u64_of(text::decimal_text(n)) is Some && u64_of(
            text::decimal_text(n),
        )->Some_0 == n,
        n > 0xffff_ffff_ffff_ffff ==> u64_of(text::decimal_text(n)) is None,
        n <= 0x7fff_ffff_ffff_ffff ==> i64_of(text::decimal_text(n)) is Some && i64_of(
            text::decimal_text(n),
        )->Some_0 == n,
        n <= 0x8000_0000_0000_0000 ==> i64_of(seq!['-'] + text::decimal_text(n)) is Some && i64_of(
            seq!['-'] + text::decimal_text(n),
        )->Some_0 == -(n as int),
        u64_of(seq!['-'] + text::decimal_text(n)) is None,
{
    decimal_text_denotes(n);
    let s = text::decimal_text(n);
    let m = seq!['-'] + s;
    assert(is_digit(s[0]));
    assert(m.drop_first() =~= s);
    assert(m[0] == '-');
    assert(!is_digit(m[0]));
}

/// A number may have an exponent behind it: the letter e, in either case, a sign or none, and digits.
pub proof fn exponents_may_follow(whole: Seq<char>, e: char, sign: Seq<char>, exponent: Seq<char>)
    requires
        whole.len() > 0,
        all_digits(whole),
        e == 'e' || e == 'E',
        sign == Seq::<char>::empty() || sign == seq!['+'] || sign == seq!['-'],
        exponent.len() > 0,
        all_digits(exponent),
    ensures
        is_real(whole + seq![e] + sign + exponent),
{
    let s = whole + seq![e] + sign + exponent;
    let n = whole.len() as int;
    let k = sign.len() as int;
    assert(is_digit(whole[0]) && s[0] == whole[0]);
    assert forall|i: int| 0 <= i < n implies is_digit(#[trigger] s[i]) by {
        assert(s[i] == whole[i]);
    }
    assert(s[n] == e);
    digits_reach_their_end(s, 0, n);
    assert forall|i: int| n + 1 + k <= i < s.len() implies is_digit(#[trigger] s[i]) by {
        assert(s[i] == exponent[i - n - 1 - k]);
    }
    assert(s[n + 1 + k] == exponent[0] && is_digit(exponent[0]));
    if k > 0 {
        assert(s[n + 1] == sign[0]);
    }
    assert(sign_end(s, n + 1) == n + 1 + k);
    digits_reach_their_end(s, n + 1 + k, s.len() as int);
}

/// Infinities and what is no number are written as words.
pub proof fn words_are_numbers()
    ensures
        is_real(seq!['i', 'n', 'f']),
        is_real(seq!['N', 'a', 'N']),
        is_real(seq!['-', 'i', 'n', 'f', 'i', 'n', 'i', 't', 'y']),
{
    let inf = seq!['i', 'n', 'f'];
    assert(word_at(inf, 0, seq!['i', 'n', 'f']));
    let nan = seq!['N', 'a', 'N'];
    assert(word_at(nan, 0, seq!['n', 'a', 'n']));
    let long = seq!['-', 'i', 'n', 'f', 'i', 'n', 'i', 't', 'y'];
    assert(sign_end(long, 0) == 1);
    assert(word_at(long, 1, seq!['i', 'n', 'f', 'i', 'n', 'i', 't', 'y']));
}

} // verus!

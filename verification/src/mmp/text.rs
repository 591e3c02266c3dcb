//! Byte-level text: comparison, white space, decimal integers and the
//! lexical form of floating-point literals.

use vstd::prelude::*;

verus! {

/// The character `0`.
pub const DIGIT_0: u8 = 48;

/// The character `9`.
pub const DIGIT_9: u8 = 57;

/// The character `+`.
pub const PLUS: u8 = 43;

/// The character `-`.
pub const MINUS: u8 = 45;

/// The character `.`.
pub const DOT: u8 = 46;

/// Why a text could not be read as a value of the requested type.
#[derive(Clone, Copy, Debug, PartialEq, Eq, Structural)]
pub enum Cause {
    /// The text is empty.
    Empty,
    /// A character that is no decimal digit stands where a digit must.
    InvalidDigit,
    /// The number is above the largest value of the type.
    PosOverflow,
    /// The number is below the smallest value of the type.
    NegOverflow,
    /// The text is neither `0` nor `1`.
    InvalidBool,
    /// The text is no floating-point literal.
    InvalidFloat,
}

/// `b` is one of `0` to `9`.
pub open spec fn is_digit(b: u8) -> bool {
    DIGIT_0 <= b <= DIGIT_9
}

/// `b` is `+` or `-`.
pub open spec fn is_sign(b: u8) -> bool {
    b == PLUS || b == MINUS
}

/// The position just behind the digits that start at `from`.
pub open spec fn digits_end(s: Seq<u8>, from: int) -> int
    decreases s.len() - from,
{
    if 0 <= from < s.len() && is_digit(s[from]) {
        digits_end(s, from + 1)
    } else {
        from
    }
}

/// The number that a sequence of decimal digits denotes.
pub open spec fn decimal_value(digits: Seq<u8>) -> int
    decreases digits.len(),
{
    if digits.len() == 0 {
        0
    } else {
        10 * decimal_value(digits.drop_last()) + (digits.last() - DIGIT_0)
    }
}

/// What a text denotes as a decimal integer between `min` and `max`.
///
/// A leading `+` is accepted, a leading `-` where `signed` holds. The digits
/// are read as far as they go: a number that leaves the range is an overflow
/// whatever follows it, and only then is a stray character an invalid digit.
pub open spec fn integer_text(s: Seq<u8>, signed: bool, min: int, max: int) -> Result<int, Cause> {
    if s.len() == 0 {
        Err(Cause::Empty)
    } else if s.len() == 1 && is_sign(s[0]) {
        Err(Cause::InvalidDigit)
    } else {
        let negative = signed && s[0] == MINUS;
        let start: int = if s[0] == PLUS || negative { 1 } else { 0 };
        let end = digits_end(s, start);
        let magnitude = decimal_value(s.subrange(start, end));
        let value = if negative { -magnitude } else { magnitude };
        if value > max {
            Err(Cause::PosOverflow)
        } else if value < min {
            Err(Cause::NegOverflow)
        } else if end < s.len() {
            Err(Cause::InvalidDigit)
        } else {
            Ok(value)
        }
    }
}

/// `digits_end` stays within the text, everything before it is a digit and
/// what stands at it is none.
pub proof fn lemma_digits_end(s: Seq<u8>, from: int)
    requires
        0 <= from <= s.len(),
    ensures
        from <= digits_end(s, from) <= s.len(),
        forall|i: int| from <= i < digits_end(s, from) ==> is_digit(#[trigger] s[i]),
        digits_end(s, from) < s.len() ==> !is_digit(s[digits_end(s, from)]),
    decreases s.len() - from,
{
    if from < s.len() && is_digit(s[from]) {
        lemma_digits_end(s, from + 1);
    }
}

/// A run of digits that ends at a character that is no digit, or at the end
/// of the text, is the one that `digits_end` finds.
pub proof fn lemma_digits_end_is(s: Seq<u8>, from: int, to: int)
    requires
        0 <= from <= to <= s.len(),
        forall|i: int| from <= i < to ==> is_digit(#[trigger] s[i]),
        to < s.len() ==> !is_digit(s[to]),
    ensures
        digits_end(s, from) == to,
    decreases to - from,
{
    if from < to {
        lemma_digits_end_is(s, from + 1, to);
    }
}

/// A longer run of digits denotes no smaller number.
pub proof fn lemma_decimal_value_grows(s: Seq<u8>, from: int, mid: int, to: int)
    requires
        0 <= from <= mid <= to <= s.len(),
        forall|i: int| from <= i < to ==> is_digit(#[trigger] s[i]),
    ensures
        0 <= decimal_value(s.subrange(from, mid)) <= decimal_value(s.subrange(from, to)),
    decreases to - mid,
{
    if mid == to {
        lemma_decimal_value_nonnegative(s.subrange(from, mid));
    } else {
        lemma_decimal_value_grows(s, from, mid, to - 1);
        let longer = s.subrange(from, to);
        assert(longer.drop_last() =~= s.subrange(from, to - 1));
        assert(is_digit(s[to - 1]));
    }
}

/// Digits denote a number that is not negative.
pub proof fn lemma_decimal_value_nonnegative(digits: Seq<u8>)
    requires
        forall|i: int| 0 <= i < digits.len() ==> is_digit(#[trigger] digits[i]),
    ensures
        0 <= decimal_value(digits),
    decreases digits.len(),
{
    if digits.len() > 0 {
        lemma_decimal_value_nonnegative(digits.drop_last());
    }
}

/// The position just behind the digits that start at `from`.
pub fn scan_digits(s: &[u8], from: usize) -> (to: usize)
    requires
        from <= s@.len(),
    ensures
        to == digits_end(s@, from as int),
        from <= to <= s@.len(),
{
    let mut i: usize = from;
    while i < s.len() && s[i] >= DIGIT_0 && s[i] <= DIGIT_9
        invariant
            from <= i <= s@.len(),
            digits_end(s@, from as int) == digits_end(s@, i as int),
        decreases s@.len() - i,
    {
        i = i + 1;
    }
    i
}

/// Reads a decimal integer between `min` and `max`.
pub fn parse_integer(s: &[u8], signed: bool, min: i128, max: i128) -> (r: Result<i128, Cause>)
    requires
        -0x1_0000_0000_0000_0000 <= min <= 0 <= max <= 0x1_0000_0000_0000_0000,
    ensures
        r == match integer_text(s@, signed, min as int, max as int) {
            Ok(v) => Ok::<i128, Cause>(v as i128),
            Err(c) => Err(c),
        },
        r matches Ok(v) ==> min <= v <= max,
{
    let n = s.len();
    if n == 0 {
        return Err(Cause::Empty);
    }
    if n == 1 && (s[0] == PLUS || s[0] == MINUS) {
        return Err(Cause::InvalidDigit);
    }
    let negative = signed && s[0] == MINUS;
    let start: usize = if s[0] == PLUS || negative { 1 } else { 0 };
    let ghost end = digits_end(s@, start as int);
    proof {
        lemma_digits_end(s@, start as int);
    }
    let mut i: usize = start;
    let mut acc: i128 = 0;
    while i < n && s[i] >= DIGIT_0 && s[i] <= DIGIT_9
        invariant
            n == s@.len(),
            n > 0,
            !(n == 1 && is_sign(s@[0])),
            negative == (signed && s@[0] == MINUS),
            start == if s@[0] == PLUS || negative { 1int } else { 0int },
            start <= i <= end <= n,
            end == digits_end(s@, start as int),
            forall|k: int| start <= k < end ==> is_digit(#[trigger] s@[k]),
            end < n ==> !is_digit(s@[end]),
            -0x1_0000_0000_0000_0000 <= min <= 0 <= max <= 0x1_0000_0000_0000_0000,
            min <= acc <= max,
            acc == if negative {
                -decimal_value(s@.subrange(start as int, i as int))
            } else {
                decimal_value(s@.subrange(start as int, i as int))
            },
        decreases n - i,
    {
        let d: i128 = (s[i] - DIGIT_0) as i128;
        let next: i128 = if negative { acc * 10 - d } else { acc * 10 + d };
        proof {
            let longer = s@.subrange(start as int, i + 1);
            assert(longer.drop_last() =~= s@.subrange(start as int, i as int));
            assert(longer.last() == s@[i as int]);
            assert(decimal_value(longer) == 10 * decimal_value(longer.drop_last()) + (s@[i as int] - DIGIT_0));
            lemma_decimal_value_grows(s@, start as int, i + 1, end);
        }
        if next > max {
            return Err(Cause::PosOverflow);
        }
        if next < min {
            return Err(Cause::NegOverflow);
        }
        acc = next;
        i = i + 1;
    }
    proof {
        lemma_digits_end_is(s@, start as int, i as int);
    }
    if i < n {
        Err(Cause::InvalidDigit)
    } else {
        Ok(acc)
    }
}

/// The two sequences hold the same bytes.
pub fn bytes_eq(a: &[u8], b: &[u8]) -> (r: bool)
    ensures
        r == (a@ == b@),
{
    if a.len() != b.len() {
        return false;
    }
    let mut i: usize = 0;
    while i < a.len()
        invariant
            a@.len() == b@.len(),
            i <= a@.len(),
            forall|k: int| 0 <= k < i ==> a@[k] == b@[k],
        decreases a@.len() - i,
    {
        if a[i] != b[i] {
            return false;
        }
        i = i + 1;
    }
    assert(a@ =~= b@);
    true
}

/// The two texts hold the same characters.
pub fn str_eq(a: &str, b: &str) -> (r: bool)
    ensures
        r == (a@ == b@),
{
    proof {
        vstd::utf8::encode_utf8_decode_utf8(a@);
        vstd::utf8::encode_utf8_decode_utf8(b@);
    }
    bytes_eq(a.as_bytes(), b.as_bytes())
}

/// `b` is white space: a tab, a line feed, a vertical tab, a form feed, a
/// carriage return, a space, or one of the bytes `0x85` and `0xA0`.
pub open spec fn is_whitespace(b: u8) -> bool {
    9 <= b <= 13 || b == 32 || b == 0x85 || b == 0xA0
}

/// Every byte of the text is white space.
pub open spec fn is_blank(s: Seq<u8>) -> bool {
    forall|i: int| 0 <= i < s.len() ==> is_whitespace(#[trigger] s[i])
}

/// Every byte of the text is white space.
pub fn is_blank_text(s: &[u8]) -> (r: bool)
    ensures
        r == is_blank(s@),
{
    let mut i: usize = 0;
    while i < s.len()
        invariant
            i <= s@.len(),
            forall|k: int| 0 <= k < i ==> is_whitespace(#[trigger] s@[k]),
        decreases s@.len() - i,
    {
        let b = s[i];
        if !((9 <= b && b <= 13) || b == 32 || b == 0x85 || b == 0xA0) {
            return false;
        }
        i = i + 1;
    }
    true
}

/// The lower-case form of an ASCII letter; any other byte is itself.
pub open spec fn lower(b: u8) -> u8 {
    if 65 <= b <= 90 {
        (b + 32) as u8
    } else {
        b
    }
}

/// What stands from `from` to the end of the text is `word`, whatever the
/// case of its letters; `word` is in lower case.
pub open spec fn spells(s: Seq<u8>, from: int, word: Seq<u8>) -> bool {
    &&& s.len() - from == word.len()
    &&& forall|k: int| 0 <= k < word.len() ==> lower(#[trigger] s[from + k]) == word[k]
}

/// The letters `inf`.
pub open spec fn word_inf() -> Seq<u8> {
    seq![105u8, 110u8, 102u8]
}

/// The letters `infinity`.
pub open spec fn word_infinity() -> Seq<u8> {
    seq![105u8, 110u8, 102u8, 105u8, 110u8, 105u8, 116u8, 121u8]
}

/// The letters `nan`.
pub open spec fn word_nan() -> Seq<u8> {
    seq![110u8, 97u8, 110u8]
}

/// An exponent stands from `from` to the end of the text: an optional sign
/// and at least one digit.
pub open spec fn is_exponent(s: Seq<u8>, from: int) -> bool {
    let digits = if from < s.len() && is_sign(s[from]) { from + 1 } else { from };
    digits < s.len() && digits_end(s, digits) == s.len()
}

/// A number stands from `from` to the end of the text: digits with at most
/// one `.` among them, at least one digit in all, and after them an optional
/// exponent behind `e` or `E`.
pub open spec fn is_number(s: Seq<u8>, from: int) -> bool {
    let whole_end = digits_end(s, from);
    let has_dot = whole_end < s.len() && s[whole_end] == DOT;
    let mantissa_end = if has_dot { digits_end(s, whole_end + 1) } else { whole_end };
    let digits = if has_dot { mantissa_end - from - 1 } else { mantissa_end - from };
    &&& digits >= 1
    &&& mantissa_end == s.len() || (lower(s[mantissa_end]) == 101 && is_exponent(
        s,
        mantissa_end + 1,
    ))
}

/// The text is a floating-point literal: an optional sign, then a number or
/// one of the words `inf`, `infinity` and `nan` in any case.
pub open spec fn is_float_literal(s: Seq<u8>) -> bool {
    let from: int = if s.len() > 0 && is_sign(s[0]) { 1 } else { 0 };
    &&& s.len() > 0
    &&& is_number(s, from) || spells(s, from, word_inf()) || spells(s, from, word_infinity())
        || spells(s, from, word_nan())
}

/// What stands from `from` to the end of the text is `word`, whatever the
/// case of its letters.
fn spells_word(s: &[u8], from: usize, word: &[u8]) -> (r: bool)
    requires
        from <= s@.len(),
    ensures
        r == spells(s@, from as int, word@),
{
    let n = s.len();
    if n - from != word.len() {
        return false;
    }
    let mut k: usize = 0;
    while k < word.len()
        invariant
            n == s@.len(),
            from <= s@.len(),
            s@.len() - from == word@.len(),
            k <= word@.len(),
            forall|j: int| 0 <= j < k ==> lower(#[trigger] s@[from + j]) == word@[j],
        decreases word@.len() - k,
    {
        let b = s[from + k];
        let low: u8 = if 65 <= b && b <= 90 { b + 32 } else { b };
        if low != word[k] {
            return false;
        }
        k = k + 1;
    }
    true
}

/// An exponent stands from `from` to the end of the text.
fn scan_exponent(s: &[u8], from: usize) -> (r: bool)
    requires
        from <= s@.len(),
    ensures
        r == is_exponent(s@, from as int),
{
    let digits: usize = if from < s.len() && (s[from] == PLUS || s[from] == MINUS) {
        from + 1
    } else {
        from
    };
    digits < s.len() && scan_digits(s, digits) == s.len()
}

/// A number stands from `from` to the end of the text.
fn scan_number(s: &[u8], from: usize) -> (r: bool)
    requires
        from <= s@.len(),
    ensures
        r == is_number(s@, from as int),
{
    let whole_end = scan_digits(s, from);
    let has_dot = whole_end < s.len() && s[whole_end] == DOT;
    let mantissa_end = if has_dot { scan_digits(s, whole_end + 1) } else { whole_end };
    let digits = if has_dot { mantissa_end - from - 1 } else { mantissa_end - from };
    if digits < 1 {
        return false;
    }
    if mantissa_end == s.len() {
        return true;
    }
    let mark = s[mantissa_end];
    (mark == 101 || mark == 69) && scan_exponent(s, mantissa_end + 1)
}

/// The text is a floating-point literal.
pub fn check_float_literal(s: &[u8]) -> (r: bool)
    ensures
        r == is_float_literal(s@),
{
    if s.len() == 0 {
        return false;
    }
    let from: usize = if s[0] == PLUS || s[0] == MINUS { 1 } else { 0 };
    if scan_number(s, from) {
        return true;
    }
    let inf: [u8; 3] = [105, 110, 102];
    let infinity: [u8; 8] = [105, 110, 102, 105, 110, 105, 116, 121];
    let nan: [u8; 3] = [110, 97, 110];
    assert(inf@ =~= word_inf());
    assert(infinity@ =~= word_infinity());
    assert(nan@ =~= word_nan());
    spells_word(s, from, inf.as_slice()) || spells_word(s, from, infinity.as_slice())
        || spells_word(s, from, nan.as_slice())
}

/// The decimal digits of `n`, the most significant first and without
/// leading zeros.
pub open spec fn digits_of(n: nat) -> Seq<u8>
    decreases n,
{
    if n < 10 {
        seq![(DIGIT_0 + n) as u8]
    } else {
        digits_of(n / 10).push((DIGIT_0 + n % 10) as u8)
    }
}

/// The decimal text of `v`: its digits, behind a `-` where it is negative.
pub open spec fn decimal_text(v: int) -> Seq<u8> {
    if v < 0 {
        seq![MINUS] + digits_of((-v) as nat)
    } else {
        digits_of(v as nat)
    }
}

/// The digits of a number are digits, at least one, and denote it.
pub proof fn lemma_digits_of(n: nat)
    ensures
        digits_of(n).len() >= 1,
        forall|i: int| 0 <= i < digits_of(n).len() ==> is_digit(#[trigger] digits_of(n)[i]),
        decimal_value(digits_of(n)) == n,
    decreases n,
{
    if n < 10 {
        let one = seq![(DIGIT_0 + n) as u8];
        assert(one.drop_last() =~= Seq::<u8>::empty());
        assert(decimal_value(one) == 10 * decimal_value(one.drop_last()) + (one.last() - DIGIT_0));
    } else {
        lemma_digits_of(n / 10);
        let shorter = digits_of(n / 10);
        let all = shorter.push((DIGIT_0 + n % 10) as u8);
        assert(all.drop_last() =~= shorter);
        assert(decimal_value(all) == 10 * decimal_value(all.drop_last()) + (all.last() - DIGIT_0));
    }
}

/// The decimal text of a number of the range reads back as that number.
pub proof fn lemma_decimal_text_reads_back(v: int, signed: bool, min: int, max: int)
    requires
        min <= v <= max,
        v < 0 ==> signed,
    ensures
        integer_text(decimal_text(v), signed, min, max) == Ok::<int, Cause>(v),
{
    let magnitude = (if v < 0 { -v } else { v }) as nat;
    let digits = digits_of(magnitude);
    let text = decimal_text(v);
    let start: int = if v < 0 { 1 } else { 0 };
    lemma_digits_of(magnitude);
    assert(text.subrange(start, text.len() as int) =~= digits);
    assert forall|i: int| start <= i < text.len() implies is_digit(#[trigger] text[i]) by {
        assert(text[i] == digits[i - start]);
    }
    lemma_digits_end_is(text, start, text.len() as int);
    assert(!is_sign(digits[0]));
}

/// Appends the decimal digits of `n` to `out`.
pub fn push_digits(n: u128, out: &mut Vec<u8>)
    ensures
        final(out)@ == old(out)@ + digits_of(n as nat),
    decreases n,
{
    if n < 10 {
        out.push(DIGIT_0 + n as u8);
        assert(out@ =~= old(out)@ + digits_of(n as nat));
    } else {
        push_digits(n / 10, out);
        out.push(DIGIT_0 + (n % 10) as u8);
        assert(out@ =~= old(out)@ + digits_of(n as nat));
    }
}

/// The decimal text of `v`.
pub fn format_integer(v: i128) -> (text: Vec<u8>)
    requires
        v > i128::MIN,
    ensures
        text@ == decimal_text(v as int),
{
    let mut text: Vec<u8> = Vec::new();
    if v < 0 {
        text.push(MINUS);
        push_digits((-v) as u128, &mut text);
    } else {
        push_digits(v as u128, &mut text);
    }
    assert(text@ =~= decimal_text(v as int));
    text
}

/// The decimal text of an integer is a floating-point literal.
pub proof fn lemma_decimal_text_is_float_literal(v: int)
    ensures
        is_float_literal(decimal_text(v)),
{
    let magnitude = (if v < 0 { -v } else { v }) as nat;
    let digits = digits_of(magnitude);
    let text = decimal_text(v);
    let start: int = if v < 0 { 1 } else { 0 };
    lemma_digits_of(magnitude);
    assert forall|i: int| start <= i < text.len() implies is_digit(#[trigger] text[i]) by {
        assert(text[i] == digits[i - start]);
    }
    lemma_digits_end_is(text, start, text.len() as int);
    assert(!is_sign(digits[0]));
    assert(is_number(text, start));
}

/// The position of the first `.` at or behind `from`, or the length of the
/// text where there is none.
pub open spec fn dot_position(s: Seq<u8>, from: int) -> int
    decreases s.len() - from,
{
    if 0 <= from < s.len() && s[from] != DOT {
        dot_position(s, from + 1)
    } else {
        from
    }
}

/// What a text denotes as a version number up to `max`: a decimal integer
/// that is not negative, which may be followed by a `.` and digits. Of such a
/// fraction nothing is kept.
pub open spec fn version_text(s: Seq<u8>, max: int) -> Result<int, Cause> {
    let dot = dot_position(s, 0);
    match integer_text(s.subrange(0, dot), false, 0, max) {
        Err(cause) => Err(cause),
        Ok(v) => if dot < s.len() && digits_end(s, dot + 1) < s.len() {
            Err(Cause::InvalidDigit)
        } else {
            Ok(v)
        },
    }
}

/// Reads a version number up to `max`.
pub fn parse_version(s: &[u8], max: i128) -> (r: Result<i128, Cause>)
    requires
        0 <= max <= 0x1_0000_0000_0000_0000,
    ensures
        r == match version_text(s@, max as int) {
            Ok(v) => Ok::<i128, Cause>(v as i128),
            Err(c) => Err(c),
        },
        r matches Ok(v) ==> 0 <= v <= max,
{
    let mut dot: usize = 0;
    while dot < s.len() && s[dot] != DOT
        invariant
            dot <= s@.len(),
            dot_position(s@, 0) == dot_position(s@, dot as int),
        decreases s@.len() - dot,
    {
        dot = dot + 1;
    }
    let head = vstd::slice::slice_subrange(s, 0, dot);
    match parse_integer(head, false, 0, max) {
        Err(cause) => Err(cause),
        Ok(v) => if dot < s.len() && scan_digits(s, dot + 1) < s.len() {
            Err(Cause::InvalidDigit)
        } else {
            Ok(v)
        },
    }
}

/// Every byte of the text is an ASCII character.
pub open spec fn is_ascii(s: Seq<u8>) -> bool {
    forall|i: int| 0 <= i < s.len() ==> #[trigger] s[i] < 128
}

/// A text of ASCII characters is UTF-8.
pub proof fn lemma_ascii_is_utf8(s: Seq<u8>)
    requires
        is_ascii(s),
    ensures
        vstd::utf8::valid_utf8(s),
{
    assert(s.subrange(0, 0) =~= Seq::<u8>::empty());
    assert(vstd::utf8::partial_valid_utf8(s, 0));
    assert forall|i: int| 0 <= 0 <= i < s.len() <= s.len() implies #[trigger]
        vstd::utf8::is_leading_byte_width_1(s[i]) by {
        assert(s[i] < 128);
    }
    vstd::utf8::partial_valid_utf8_extend_ascii_block(s, 0, s.len() as int);
    assert(s.subrange(0, s.len() as int) =~= s);
}

/// The decimal text of an integer is ASCII.
pub proof fn lemma_decimal_text_is_ascii(v: int)
    ensures
        is_ascii(decimal_text(v)),
{
    let magnitude = (if v < 0 { -v } else { v }) as nat;
    let digits = digits_of(magnitude);
    let text = decimal_text(v);
    let start: int = if v < 0 { 1 } else { 0 };
    lemma_digits_of(magnitude);
    assert forall|i: int| 0 <= i < text.len() implies #[trigger] text[i] < 128 by {
        if i >= start {
            assert(text[i] == digits[i - start]);
            assert(is_digit(digits[i - start]));
        }
    }
}

/// A word in lower-case letters, spelt in any case, is ASCII.
proof fn lemma_spelling_is_ascii(s: Seq<u8>, from: int, word: Seq<u8>)
    requires
        0 <= from <= s.len(),
        spells(s, from, word),
        forall|k: int| 0 <= k < word.len() ==> 97 <= #[trigger] word[k] <= 122,
    ensures
        forall|i: int| from <= i < s.len() ==> #[trigger] s[i] < 128,
{
    assert forall|i: int| from <= i < s.len() implies #[trigger] s[i] < 128 by {
        let k = i - from;
        assert(lower(s[from + k]) == word[k]);
        assert(97 <= word[k] <= 122);
    }
}

/// A floating-point literal is ASCII.
pub proof fn lemma_float_literal_is_ascii(s: Seq<u8>)
    requires
        is_float_literal(s),
    ensures
        is_ascii(s),
{
    let from: int = if s.len() > 0 && is_sign(s[0]) { 1 } else { 0 };
    if is_number(s, from) {
        let whole_end = digits_end(s, from);
        lemma_digits_end(s, from);
        let has_dot = whole_end < s.len() && s[whole_end] == DOT;
        let mantissa_end = if has_dot { digits_end(s, whole_end + 1) } else { whole_end };
        if has_dot {
            lemma_digits_end(s, whole_end + 1);
        }
        if mantissa_end < s.len() {
            let sign_at = mantissa_end + 1;
            let digits = if sign_at < s.len() && is_sign(s[sign_at]) {
                sign_at + 1
            } else {
                sign_at
            };
            lemma_digits_end(s, digits);
            assert forall|i: int| 0 <= i < s.len() implies #[trigger] s[i] < 128 by {
                if i < from {
                } else if i < whole_end {
                    assert(is_digit(s[i]));
                } else if i < mantissa_end {
                    if i > whole_end {
                        assert(is_digit(s[i]));
                    }
                } else if i == mantissa_end {
                } else if i < digits {
                } else {
                    assert(is_digit(s[i]));
                }
            }
        } else {
            assert forall|i: int| 0 <= i < s.len() implies #[trigger] s[i] < 128 by {
                if i < from {
                } else if i < whole_end {
                    assert(is_digit(s[i]));
                } else if i > whole_end {
                    assert(is_digit(s[i]));
                }
            }
        }
    } else {
        if spells(s, from, word_inf()) {
            lemma_spelling_is_ascii(s, from, word_inf());
        } else if spells(s, from, word_infinity()) {
            lemma_spelling_is_ascii(s, from, word_infinity());
        } else {
            lemma_spelling_is_ascii(s, from, word_nan());
        }
    }
}

} // verus!

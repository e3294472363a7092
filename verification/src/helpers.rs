//! Small helpers: values from the environment with their defaults, and
//! extensions of `str` and of the integer types.

use vstd::prelude::*;
use vstd::string::*;
use vstd::utf8::is_char_boundary;
use regex::Regex;

verus! {

// ------------------------------------------------------------- the constants

pub const EMPTY_STR: &'static str = "";

pub const PT: &'static str = ".";

pub const COMMA: &'static str = ",";

pub const SEMICOLON: &'static str = ";";

pub const BRACKETS: &'static str = "{}";

pub const SPACE: char = ' ';

pub const ZERO: char = '0';

// ------------------------------------------------ values of the environment

/// The value of an environment variable, or `replacement` where the
/// variable is not set. `found` is what the environment holds under the
/// variable's name.
pub fn env_var(found: Option<String>, replacement: &str) -> (value: String)
    ensures
        value@ == match found {
            Some(var_value) => var_value@,
            None => replacement@,
        },
{
    match found {
        Some(var_value) => var_value,
        None => replacement.to_owned(),
    }
}

/// Whether `c` is one of the digits `0` to `9`.
pub open spec fn is_digit(c: char) -> bool {
    '0' <= c <= '9'
}

/// The number that a string of digits stands for, read in base ten.
pub open spec fn digits_value(digits: Seq<char>) -> int
    decreases digits.len(),
{
    if digits.len() == 0 {
        0
    } else {
        10 * digits_value(digits.drop_last()) + (digits.last() as int - '0' as int)
    }
}

/// Whether `text` has a sign in front.
pub open spec fn is_signed(text: Seq<char>) -> bool {
    text.len() > 0 && (text[0] == '-' || text[0] == '+')
}

/// The part of `text` behind its sign.
pub open spec fn unsigned_part(text: Seq<char>) -> Seq<char> {
    if is_signed(text) {
        text.drop_first()
    } else {
        text
    }
}

/// The integer that `text` stands for: an optional `+` or `-`, then one or
/// more digits, and nothing else. Any other text stands for none.
pub open spec fn decimal(text: Seq<char>) -> Option<int> {
    let digits = unsigned_part(text);
    if digits.len() == 0 || !(forall|i: int| 0 <= i < digits.len() ==> is_digit(digits[i])) {
        None
    } else if text[0] == '-' {
        Some(-digits_value(digits))
    } else {
        Some(digits_value(digits))
    }
}

/// The `isize` that `text` stands for, if it stands for an integer and that
/// integer fits.
pub open spec fn parsed(text: Seq<char>) -> Option<isize> {
    match decimal(text) {
        Some(value) => if isize::MIN <= value <= isize::MAX {
            Some(value as isize)
        } else {
            None
        },
        None => None,
    }
}

/// A longer string of digits stands for no smaller number.
proof fn lemma_digits_grow(digits: Seq<char>, shorter: int)
    requires
        0 <= shorter <= digits.len(),
        forall|i: int| 0 <= i < digits.len() ==> is_digit(digits[i]),
    ensures
        0 <= digits_value(digits.take(shorter)) <= digits_value(digits),
    decreases digits.len() - shorter,
{
    if shorter == digits.len() {
        assert(digits.take(shorter) =~= digits);
        lemma_digits_nonnegative(digits);
    } else {
        lemma_digits_grow(digits, shorter + 1);
        let longer = digits.take(shorter + 1);
        assert(longer.drop_last() =~= digits.take(shorter));
        lemma_digits_nonnegative(digits.take(shorter));
    }
}

/// A string of digits stands for no negative number.
proof fn lemma_digits_nonnegative(digits: Seq<char>)
    requires
        forall|i: int| 0 <= i < digits.len() ==> is_digit(digits[i]),
    ensures
        0 <= digits_value(digits),
    decreases digits.len(),
{
    if digits.len() > 0 {
        lemma_digits_nonnegative(digits.drop_last());
    }
}

/// Reads `text` as a signed integer in base ten: an optional `+` or `-`,
/// then one or more digits. `None` for any other text, and for a number
/// that does not fit in an `isize`.
pub fn parse_isize(text: &str) -> (value: Option<isize>)
    ensures
        value == parsed(text@),
{
    let len = text.unicode_len();
    if len == 0 {
        return None;
    }
    let first = text.get_char(0);
    let negative = first == '-';
    let start: usize = if first == '-' || first == '+' {
        1
    } else {
        0
    };
    if start == len {
        return None;
    }
    let ghost digits = unsigned_part(text@);
    let limit: i128 = (isize::MAX as i128) + 1;
    let mut magnitude: i128 = 0;
    let mut i: usize = start;
    while i < len
        invariant
            start <= i <= len,
            len == text@.len(),
            digits == unsigned_part(text@),
            digits == text@.subrange(start as int, len as int),
            limit == isize::MAX + 1,
            0 <= magnitude <= limit,
            magnitude == digits_value(digits.take(i - start)),
            forall|j: int| 0 <= j < i - start ==> is_digit(digits[j]),
        decreases len - i,
    {
        let c = text.get_char(i);
        if !('0' <= c && c <= '9') {
            assert(!is_digit(digits[i - start]));
            return None;
        }
        let digit: i128 = (c as u32 - '0' as u32) as i128;
        proof {
            assert(digits.take(i - start + 1).drop_last() =~= digits.take(i - start));
        }
        magnitude = magnitude * 10 + digit;
        i = i + 1;
        if magnitude > limit {
            proof {
                if forall|j: int| 0 <= j < digits.len() ==> is_digit(digits[j]) {
                    lemma_digits_grow(digits, i - start);
                }
            }
            return None;
        }
    }
    assert(digits.take(i - start) =~= digits);
    if negative {
        let value: i128 = -magnitude;
        if value < isize::MIN as i128 {
            None
        } else {
            Some(value as isize)
        }
    } else {
        if magnitude > isize::MAX as i128 {
            None
        } else {
            Some(magnitude as isize)
        }
    }
}

/// The number in an environment variable, or `replacement` where the
/// variable is not set or does not hold a number. `found` is what the
/// environment holds under the variable's name.
pub fn env_value(found: Option<&str>, replacement: isize) -> (value: isize)
    ensures
        value == match found {
            Some(var_value) => match parsed(var_value@) {
                Some(number) => number,
                None => replacement,
            },
            None => replacement,
        },
{
    match found {
        Some(var_value) => match parse_isize(var_value) {
            Some(number) => number,
            None => replacement,
        },
        None => replacement,
    }
}

/// The digit for a number below ten.
pub open spec fn digit_char(digit: nat) -> char {
    ((48 + digit) as u8) as char
}

/// A number written in base ten, without a sign and without zeros in front.
pub open spec fn digits_of(number: nat) -> Seq<char>
    decreases number,
{
    if number < 10 {
        seq![digit_char(number)]
    } else {
        digits_of(number / 10).push(digit_char(number % 10))
    }
}

/// Writes `number` in base ten.
pub fn to_decimal(number: usize) -> (text: String)
    ensures
        text@ == digits_of(number as nat),
    decreases number,
{
    if number < 10 {
        let mut text = String::new();
        push(&mut text, (48u8 + number as u8) as char);
        text
    } else {
        let mut text = to_decimal(number / 10);
        push(&mut text, (48u8 + (number % 10) as u8) as char);
        text
    }
}

/// What is written is read back. The text that [`to_decimal`] writes for a
/// number stands for that number, as [`parse_isize`] reads it.
pub proof fn lemma_written_is_read(number: nat)
    ensures
        decimal(digits_of(number)) == Some(number as int),
{
    lemma_digits_are_digits(number);
}

/// A number is written in digits only, and they stand for it.
pub proof fn lemma_digits_are_digits(number: nat)
    ensures
        digits_of(number).len() > 0,
        forall|i: int| 0 <= i < digits_of(number).len() ==> is_digit(digits_of(number)[i]),
        digits_value(digits_of(number)) == number,
    decreases number,
{
    if number < 10 {
        assert(digits_value(digits_of(number).drop_last()) == 0);
    } else {
        lemma_digits_are_digits(number / 10);
        assert(digits_of(number).drop_last() =~= digits_of(number / 10));
    }
}

// ------------------------------------------------------- the integer types

/// Conversions between the integer types that fail on no number that fits.
pub trait IntegerHelpers: Sized {
    /// The number itself.
    spec fn number(self) -> int;

    /// The number as a `u64`.
    fn to_u64(self) -> (converted: u64)
        requires
            0 <= self.number() <= u64::MAX,
        ensures
            converted == self.number(),
    ;

    /// The number as a `usize`.
    fn to_usize(self) -> (converted: usize)
        requires
            0 <= self.number() <= usize::MAX,
        ensures
            converted == self.number(),
    ;
}

impl IntegerHelpers for isize {
    open spec fn number(self) -> int {
        self as int
    }

    #[inline]
    fn to_u64(self) -> (converted: u64) {
        self as u64
    }

    #[inline]
    fn to_usize(self) -> (converted: usize) {
        self as usize
    }
}

impl IntegerHelpers for usize {
    open spec fn number(self) -> int {
        self as int
    }

    #[inline]
    fn to_u64(self) -> (converted: u64) {
        self as u64
    }

    #[inline]
    fn to_usize(self) -> (converted: usize) {
        self
    }
}

impl IntegerHelpers for u64 {
    open spec fn number(self) -> int {
        self as int
    }

    #[inline]
    fn to_u64(self) -> (converted: u64) {
        self
    }

    #[inline]
    fn to_usize(self) -> (converted: usize) {
        self as usize
    }
}

// --------------------------------------------------------------- the strings

/// Whether `pattern` stands in `text` at the position `at`.
pub open spec fn occurs_at<T>(text: Seq<T>, pattern: Seq<T>, at: int) -> bool {
    0 <= at && at + pattern.len() <= text.len() && text.subrange(at, at + pattern.len())
        == pattern
}

/// Whether `pattern` stands somewhere in `text`.
pub open spec fn occurs_in<T>(text: Seq<T>, pattern: Seq<T>) -> bool {
    exists|at: int| occurs_at(text, pattern, at)
}

/// Calls `str::starts_with` with a string as the pattern: whether the text
/// begins with the pattern.
#[verifier::external_body]
fn starts_with(text: &str, pattern: &str) -> (found: bool)
    ensures
        found == pattern@.is_prefix_of(text@),
{
    text.starts_with(pattern)
}

/// Calls `str::ends_with` with a string as the pattern: whether the text
/// ends with the pattern.
#[verifier::external_body]
fn ends_with(text: &str, pattern: &str) -> (found: bool)
    ensures
        found == pattern@.is_suffix_of(text@),
{
    text.ends_with(pattern)
}

/// Calls `str::contains` with a string as the pattern: whether the pattern
/// stands somewhere in the text.
#[verifier::external_body]
fn contains(text: &str, pattern: &str) -> (found: bool)
    ensures
        found == occurs_in(text@, pattern@),
{
    text.contains(pattern)
}

/// Calls `str::find` with a string as the pattern: the byte index at which
/// the pattern first stands in the text, if it stands in it at all.
#[verifier::external_body]
fn find(text: &str, pattern: &str) -> (found: Option<usize>)
    ensures
        match found {
            Some(at) => occurs_at(text.spec_bytes(), pattern.spec_bytes(), at as int) && forall|
                before: int,
            |
                0 <= before < at ==> !occurs_at(text.spec_bytes(), pattern.spec_bytes(), before),
            None => !occurs_in(text.spec_bytes(), pattern.spec_bytes()),
        },
{
    text.find(pattern)
}

/// Whether the bytes from `from` up to `to` are a part of a text with these
/// bytes: the range lies within the text, and neither end of it falls inside
/// a character.
pub open spec fn is_part(bytes: Seq<u8>, from: int, to: int) -> bool {
    from <= to <= bytes.len() && is_char_boundary(bytes, from) && is_char_boundary(bytes, to)
}

/// Calls `str::get` with a range of byte indices: the part of the text in
/// that range, which there is exactly when [`is_part`] holds of the range.
#[verifier::external_body]
fn slice(text: &str, from: usize, to: usize) -> (part: Option<&str>)
    ensures
        part is Some == is_part(text.spec_bytes(), from as int, to as int),
        part matches Some(piece) ==> piece.spec_bytes() == text.spec_bytes().subrange(
            from as int,
            to as int,
        ),
{
    text.get(from..to)
}

/// Calls `String::push`: the character is added at the end.
#[verifier::external_body]
pub(crate) fn push(text: &mut String, c: char)
    ensures
        final(text)@ == old(text)@.push(c),
{
    text.push(c)
}

/// The number of bytes of a text.
fn byte_len(text: &str) -> (len: usize)
    ensures
        len == text.spec_bytes().len(),
{
    text.as_bytes().len()
}

/// The character `c`, `count` times.
pub open spec fn repeated(c: char, count: nat) -> Seq<char> {
    Seq::new(count, |i: int| c)
}

/// The texts of `parts`, one after the other.
pub open spec fn joined(parts: Seq<&str>) -> Seq<char>
    decreases parts.len(),
{
    if parts.len() == 0 {
        Seq::empty()
    } else {
        joined(parts.drop_last()) + parts.last()@
    }
}

/// The position at which `pattern` first stands in `text`, if it stands in
/// it at all.
pub open spec fn first_occurrence<T>(text: Seq<T>, pattern: Seq<T>) -> Option<int> {
    if occurs_in(text, pattern) {
        Some(
            choose|at: int|
                occurs_at(text, pattern, at) && forall|before: int|
                    0 <= before < at ==> !occurs_at(text, pattern, before),
        )
    } else {
        None
    }
}

/// Where the text between ends, in a text of `len` bytes: two bytes before
/// the end of the text where `last_pos` is negative, else at `last_pos`, but
/// not behind the end of the text.
pub open spec fn between_end(len: int, last_pos: int) -> int {
    if last_pos < 0 {
        len - 2
    } else if last_pos < len {
        last_pos
    } else {
        len
    }
}

/// The range of bytes of `text` that lies between the first occurrence of
/// `pattern` and [`between_end`]: it begins where that occurrence ends.
/// There is none where the pattern does not occur, and where nothing lies
/// between, and where the occurrence ends inside a character.
pub open spec fn between(text: Seq<u8>, pattern: Seq<u8>, last_pos: int) -> Option<(int, int)> {
    match first_occurrence(text, pattern) {
        None => None,
        Some(found) => {
            let starts = found + pattern.len();
            let finish = between_end(text.len() as int, last_pos);
            if finish <= starts || !is_char_boundary(text, starts) {
                None
            } else {
                Some((starts, finish))
            }
        },
    }
}

/// Whether the text between can be asked for: where the pattern occurs, a
/// negative `last_pos` needs a text of two bytes at least, and the range
/// must not end inside a character.
pub open spec fn between_defined(text: Seq<u8>, pattern: Seq<u8>, last_pos: int) -> bool {
    first_occurrence(text, pattern) matches Some(found) ==> {
        &&& last_pos < 0 ==> text.len() >= 2
        &&& found + pattern.len() < between_end(text.len() as int, last_pos) ==> is_char_boundary(
            text,
            between_end(text.len() as int, last_pos),
        )
    }
}

/// Extensions of `str`.
pub trait StringHelpers {
    /// The text as bytes.
    spec fn bytes(&self) -> Seq<u8>;

    /// Whether one of `patterns` stands somewhere in the text.
    fn contains_any(&self, patterns: &[&str]) -> bool;

    /// Whether the text begins with one of `patterns`.
    fn starts_with_any(&self, patterns: &[&str]) -> bool;

    /// Whether the text ends with one of `patterns`.
    fn ends_with_any(&self, patterns: &[&str]) -> bool;

    /// The part of the text behind the first occurrence of `text_to_search`,
    /// up to the byte index `last_pos`, or up to two bytes before the end
    /// where `last_pos` is negative.
    fn find_text_between<'a>(&'a self, text_to_search: &str, last_pos: isize) -> Option<&'a str>
        requires
            between_defined(self.bytes(), text_to_search.spec_bytes(), last_pos as int),
    ;

    /// The text with `suffix` behind it.
    fn append(&self, suffix: &str) -> String;

    /// The text with all of `suffixes` behind it, in their order.
    fn append_all(&self, suffixes: &[&str]) -> String;

    /// The text with `prefix` in front, unless it begins with it already.
    fn with_prefix(&self, prefix: &str) -> String;

    /// The text with `suffix` behind it, unless it ends with it already.
    fn with_suffix(&self, suffix: &str) -> String;

    /// The text with spaces in front, to make up `pad` bytes.
    fn pad(&self, pad: usize) -> String
        requires
            self.bytes().len() <= pad,
    ;

    /// The text with zeros in front, to make up `pad` bytes.
    fn pad_0(&self, pad: usize) -> String
        requires
            self.bytes().len() <= pad,
    ;

    /// The text with `padchar` behind it as often as the text has bytes
    /// less than `pad`.
    fn pad_with(&self, pad: usize, padchar: char) -> String
        requires
            self.bytes().len() <= pad,
    ;

    /// The text with spaces in front, to make up `pad` bytes.
    fn pad_left(&self, pad: usize) -> String
        requires
            self.bytes().len() <= pad,
    ;

    /// The text with zeros in front, to make up `pad` bytes.
    fn pad_0_left(&self, pad: usize) -> String
        requires
            self.bytes().len() <= pad,
    ;

    /// The text with `padchar` in front as often as the text has bytes less
    /// than `pad`.
    fn pad_left_with(&self, pad: usize, padchar: char) -> String
        requires
            self.bytes().len() <= pad,
    ;
}

impl StringHelpers for str {
    open spec fn bytes(&self) -> Seq<u8> {
        self.spec_bytes()
    }

    #[inline]
    fn contains_any(&self, patterns: &[&str]) -> (found: bool)
        ensures
            found == exists|i: int|
                0 <= i < patterns@.len() && occurs_in(self@, (#[trigger] patterns@[i])@),
    {
        let mut i: usize = 0;
        while i < patterns.len()
            invariant
                i <= patterns@.len(),
                forall|j: int| 0 <= j < i ==> !occurs_in(self@, (#[trigger] patterns@[j])@),
            decreases patterns@.len() - i,
        {
            if contains(self, patterns[i]) {
                return true;
            }
            i = i + 1;
        }
        false
    }

    #[inline]
    fn starts_with_any(&self, patterns: &[&str]) -> (found: bool)
        ensures
            found == exists|i: int|
                0 <= i < patterns@.len() && (#[trigger] patterns@[i])@.is_prefix_of(self@),
    {
        let mut i: usize = 0;
        while i < patterns.len()
            invariant
                i <= patterns@.len(),
                forall|j: int| 0 <= j < i ==> !(#[trigger] patterns@[j])@.is_prefix_of(self@),
            decreases patterns@.len() - i,
        {
            if starts_with(self, patterns[i]) {
                return true;
            }
            i = i + 1;
        }
        false
    }

    #[inline]
    fn ends_with_any(&self, patterns: &[&str]) -> (found: bool)
        ensures
            found == exists|i: int|
                0 <= i < patterns@.len() && (#[trigger] patterns@[i])@.is_suffix_of(self@),
    {
        let mut i: usize = 0;
        while i < patterns.len()
            invariant
                i <= patterns@.len(),
                forall|j: int| 0 <= j < i ==> !(#[trigger] patterns@[j])@.is_suffix_of(self@),
            decreases patterns@.len() - i,
        {
            if ends_with(self, patterns[i]) {
                return true;
            }
            i = i + 1;
        }
        false
    }

    #[inline]
    fn find_text_between<'a>(&'a self, text_to_search: &str, last_pos: isize) -> (snippet: Option<
        &'a str,
    >)
        ensures
            match between(self.spec_bytes(), text_to_search.spec_bytes(), last_pos as int) {
                Some((starts, finish)) => snippet matches Some(piece) && piece.spec_bytes()
                    == self.spec_bytes().subrange(starts, finish),
                None => snippet is None,
            },
    {
        let found = match find(self, text_to_search) {
            Some(at) => at,
            None => {
                return None;
            },
        };
        let text_len = byte_len(self);
        let starts = found + byte_len(text_to_search);
        let finish = if last_pos < 0 {
            text_len - 2
        } else if (last_pos as usize) < text_len {
            last_pos as usize
        } else {
            text_len
        };
        if finish <= starts {
            return None;
        }
        slice(self, starts, finish)
    }

    #[inline]
    fn append(&self, suffix: &str) -> (res: String)
        ensures
            res@ == self@ + suffix@,
    {
        let mut res = String::from_str(self);
        vstd::string::StringExecFns::append(&mut res, suffix);
        res
    }

    #[inline]
    fn append_all(&self, suffixes: &[&str]) -> (all: String)
        ensures
            all@ == self@ + joined(suffixes@),
    {
        let mut all = String::from_str(self);
        let mut i: usize = 0;
        while i < suffixes.len()
            invariant
                i <= suffixes@.len(),
                all@ == self@ + joined(suffixes@.take(i as int)),
            decreases suffixes@.len() - i,
        {
            proof {
                assert(suffixes@.take(i + 1).drop_last() =~= suffixes@.take(i as int));
            }
            vstd::string::StringExecFns::append(&mut all, suffixes[i]);
            i = i + 1;
        }
        assert(suffixes@.take(i as int) =~= suffixes@);
        all
    }

    #[inline]
    fn with_prefix(&self, prefix: &str) -> (res: String)
        ensures
            res@ == if prefix@.is_prefix_of(self@) {
                self@
            } else {
                prefix@ + self@
            },
    {
        if starts_with(self, prefix) {
            return String::from_str(self);
        }
        let mut res = prefix.to_owned();
        vstd::string::StringExecFns::append(&mut res, self);
        res
    }

    #[inline]
    fn with_suffix(&self, suffix: &str) -> (res: String)
        ensures
            res@ == if suffix@.is_suffix_of(self@) {
                self@
            } else {
                self@ + suffix@
            },
    {
        if ends_with(self, suffix) {
            return String::from_str(self);
        }
        let mut res = String::from_str(self);
        vstd::string::StringExecFns::append(&mut res, suffix);
        res
    }

    #[inline]
    fn pad(&self, pad: usize) -> (out: String)
        ensures
            out@ == repeated(SPACE, (pad - self.spec_bytes().len()) as nat) + self@,
    {
        Self::pad_left_with(self, pad, SPACE)
    }

    #[inline]
    fn pad_0(&self, pad: usize) -> (out: String)
        ensures
            out@ == repeated(ZERO, (pad - self.spec_bytes().len()) as nat) + self@,
    {
        Self::pad_left_with(self, pad, ZERO)
    }

    #[inline]
    fn pad_with(&self, pad: usize, padchar: char) -> (out: String)
        ensures
            out@ == self@ + repeated(padchar, (pad - self.spec_bytes().len()) as nat),
    {
        let mut out = String::from_str(self);
        let len = self.len();
        let pad_len = pad - len;
        let mut i: usize = 0;
        while i < pad_len
            invariant
                i <= pad_len,
                out@ == self@ + repeated(padchar, i as nat),
            decreases pad_len - i,
        {
            push(&mut out, padchar);
            i = i + 1;
        }
        out
    }

    #[inline]
    fn pad_left(&self, pad: usize) -> (out: String)
        ensures
            out@ == repeated(SPACE, (pad - self.spec_bytes().len()) as nat) + self@,
    {
        Self::pad_left_with(self, pad, SPACE)
    }

    #[inline]
    fn pad_0_left(&self, pad: usize) -> (out: String)
        ensures
            out@ == repeated(ZERO, (pad - self.spec_bytes().len()) as nat) + self@,
    {
        Self::pad_left_with(self, pad, ZERO)
    }

    #[inline]
    fn pad_left_with(&self, pad: usize, padchar: char) -> (out: String)
        ensures
            out@ == repeated(padchar, (pad - self.spec_bytes().len()) as nat) + self@,
    {
        let mut out = String::new();
        let len = self.len();
        let pad_len = pad - len;
        let mut i: usize = 0;
        while i < pad_len
            invariant
                i <= pad_len,
                out@ == repeated(padchar, i as nat),
            decreases pad_len - i,
        {
            push(&mut out, padchar);
            i = i + 1;
        }
        vstd::string::StringExecFns::append(&mut out, self);
        out
    }
}

// ------------------------------------------------------ regular expressions

/// The compiled regular expression of the `regex` crate. Nothing is known
/// of what is inside it.
#[verifier::external_type_specification]
#[verifier::external_body]
pub struct ExRegex(Regex);

/// A regular expression, compiled: the pattern as it was written, and what
/// the `regex` crate made of it. It is made by [`Matcher::new`] and in no
/// other way, so the two always belong together.
#[derive(Debug)]
pub struct Matcher {
    pattern: String,
    compiled: Regex,
}

impl View for Matcher {
    type V = Seq<char>;

    /// A matcher is its pattern.
    closed spec fn view(&self) -> Seq<char> {
        self.pattern@
    }
}

/// The groups of one match of a regular expression: for each group of the
/// expression, in the order of their opening brackets, the text that it
/// matched, or nothing where it took no part in the match. The first group
/// is the whole match.
#[derive(Clone, Debug, PartialEq, Eq)]
pub struct Groups<'a> {
    pub texts: Vec<Option<&'a str>>,
}

impl<'a> View for Groups<'a> {
    type V = Seq<Option<Seq<char>>>;

    open spec fn view(&self) -> Seq<Option<Seq<char>>> {
        Seq::new(
            self.texts@.len(),
            |i: int|
                match self.texts@[i] {
                    Some(group_text) => Some(group_text@),
                    None => None,
                },
        )
    }
}

/// The views of a list of groups.
pub open spec fn groups_view(found: Seq<Groups>) -> Seq<Seq<Option<Seq<char>>>> {
    Seq::new(found.len(), |i: int| found[i]@)
}

/// The views of a list of texts.
pub open spec fn texts_view(found: Seq<&str>) -> Seq<Seq<char>> {
    Seq::new(found.len(), |i: int| found[i]@)
}

/// Whether `pattern` is a regular expression that the `regex` crate takes.
pub uninterp spec fn compiles(pattern: Seq<char>) -> bool;

/// For each match of the expression `pattern` in the text, in their order,
/// the texts of its groups.
pub uninterp spec fn captures_in(pattern: Seq<char>, text: Seq<char>) -> Seq<
    Seq<Option<Seq<char>>>,
>;

/// For each match of the expression `pattern` in the text, in their order,
/// the text that matched.
pub uninterp spec fn matches_in(pattern: Seq<char>, text: Seq<char>) -> Seq<Seq<char>>;

/// The byte index at which the first match of the expression `pattern` in
/// the text ends, if there is a match.
pub uninterp spec fn match_end_in(pattern: Seq<char>, text: Seq<char>) -> Option<int>;

/// Calls `Regex::new`, and drops the error where the pattern is refused.
/// The contract names the patterns that are taken and says no more of them.
#[verifier::external_body]
fn compile(pattern: &str) -> (compiled: Option<Regex>)
    ensures
        compiled is Some == compiles(pattern@),
{
    Regex::new(pattern).ok()
}

/// Calls `Regex::captures_iter` on the compiled expression and writes each
/// match down as its [`Groups`]. The contract names the result by the
/// pattern and the text, and says no more of it.
#[verifier::external_body]
fn captures<'a>(re: &Matcher, text: &'a str) -> (found: Vec<Groups<'a>>)
    ensures
        groups_view(found@) == captures_in(re@, text@),
{
    re.compiled.captures_iter(text).map(
        |caps| Groups { texts: caps.iter().map(|group| group.map(|m| m.as_str())).collect() },
    ).collect()
}

/// Calls `Regex::find_iter` on the compiled expression and takes the text of
/// each match. The contract names the result by the pattern and the text,
/// and says no more of it.
#[verifier::external_body]
fn matches<'a>(re: &Matcher, text: &'a str) -> (found: Vec<&'a str>)
    ensures
        texts_view(found@) == matches_in(re@, text@),
{
    re.compiled.find_iter(text).map(|m| m.as_str()).collect()
}

/// Calls `Regex::find` on the compiled expression and takes the end of the
/// match. The contract names the result by the pattern and the text, and
/// says of it what the crate promises of the end of a match: it lies within
/// the text and not inside a character.
#[verifier::external_body]
fn match_end(re: &Matcher, text: &str) -> (end: Option<usize>)
    ensures
        match_end_in(re@, text@) == match end {
            Some(at) => Some(at as int),
            None => None,
        },
        end matches Some(at) ==> is_part(text.spec_bytes(), at as int, at as int),
{
    re.compiled.find(text).map(|m| m.end())
}

impl Matcher {
    /// Compiles `pattern`; `None` where it is no regular expression.
    pub fn new(pattern: &str) -> (matcher: Option<Matcher>)
        ensures
            matcher is Some == compiles(pattern@),
            matcher matches Some(made) ==> made@ == pattern@,
    {
        match compile(pattern) {
            Some(compiled) => Some(Matcher { pattern: pattern.to_owned(), compiled }),
            None => None,
        }
    }

    /// The pattern as it was written.
    pub fn as_str(&self) -> (pattern: &str)
        ensures
            pattern@ == self@,
    {
        self.pattern.as_str()
    }
}

/// The text of group `i` in the groups of a match: nothing where there is
/// no such group, and where the group took no part.
pub open spec fn group_text(groups: Seq<Option<Seq<char>>>, i: int) -> Option<Seq<char>> {
    if 0 <= i < groups.len() {
        groups[i]
    } else {
        None
    }
}

/// Of the matches in `found`, those in which group `i` took part, each as
/// the text of that group.
pub open spec fn group_texts(found: Seq<Seq<Option<Seq<char>>>>, i: int) -> Seq<Seq<char>>
    decreases found.len(),
{
    if found.len() == 0 {
        Seq::empty()
    } else {
        match group_text(found.last(), i) {
            Some(group) => group_texts(found.drop_last(), i).push(group),
            None => group_texts(found.drop_last(), i),
        }
    }
}

/// The range of bytes of a text of `len` bytes that lies between the end of
/// a match, `end`, and [`between_end`]. There is none where there is no
/// match, and where nothing lies between.
pub open spec fn between_match(len: int, end: Option<int>, last_pos: int) -> Option<(int, int)> {
    match end {
        None => None,
        Some(starts) => if between_end(len, last_pos) <= starts {
            None
        } else {
            Some((starts, between_end(len, last_pos)))
        },
    }
}

/// The part of `text` between the end of a match and the byte index
/// `last_pos`, or two bytes before the end of the text where `last_pos` is
/// negative. `end` is where the match ends, if there is one.
pub fn text_between<'a>(text: &'a str, end: Option<usize>, last_pos: isize) -> (snippet: Option<
    &'a str,
>)
    requires
        last_pos < 0 ==> text.spec_bytes().len() >= 2,
        end matches Some(starts) ==> is_part(text.spec_bytes(), starts as int, starts as int),
        between_match(
            text.spec_bytes().len() as int,
            match end {
                Some(at) => Some(at as int),
                None => None,
            },
            last_pos as int,
        ) matches Some((starts, finish)) ==> is_char_boundary(text.spec_bytes(), finish),
    ensures
        match between_match(
            text.spec_bytes().len() as int,
            match end {
                Some(at) => Some(at as int),
                None => None,
            },
            last_pos as int,
        ) {
            Some((starts, finish)) => snippet matches Some(piece) && piece.spec_bytes()
                == text.spec_bytes().subrange(starts, finish),
            None => snippet is None,
        },
{
    let text_len = byte_len(text);
    let finish = if last_pos < 0 {
        text_len - 2
    } else if (last_pos as usize) < text_len {
        last_pos as usize
    } else {
        text_len
    };
    let starts = match end {
        Some(at) => at,
        None => {
            return None;
        },
    };
    if finish <= starts {
        return None;
    }
    slice(text, starts, finish)
}

/// Extensions of a regular expression.
pub trait RegexHelpers {
    /// The text of group `group_number` in the first match, if there is a
    /// match and the group took part in it.
    fn get_group<'a>(&self, text_to_search: &'a str, group_number: usize) -> Option<&'a str>;

    /// The groups of the first match, if there is a match.
    fn get_groups<'a>(&self, text_to_search: &'a str) -> Option<Groups<'a>>;

    /// The text of group `group_number` in each match in which the group
    /// took part.
    fn get_group_values<'a>(&self, text_to_search: &'a str, group_number: usize) -> Vec<&'a str>;

    /// The text of each match.
    fn get_matches<'a>(&self, text_to_search: &'a str) -> Vec<&'a str>;

    /// The text of each match, as strings of their own.
    fn get_match_values(&self, text_to_search: &str) -> Vec<String>;

    /// The part of the text between the end of the first match and the
    /// byte index `last_pos`, or two bytes before the end of the text where
    /// `last_pos` is negative.
    fn match_text_between<'a>(&self, text_to_search: &'a str, last_pos: isize) -> Option<&'a str>;
}

impl RegexHelpers for Matcher {
    fn get_group<'a>(&self, text_to_search: &'a str, group_number: usize) -> (group: Option<
        &'a str,
    >)
        ensures
            (match group {
                Some(group_text) => Some(group_text@),
                None => None,
            }) == if captures_in(self@, text_to_search@).len() > 0 {
                group_text(captures_in(self@, text_to_search@)[0], group_number as int)
            } else {
                None
            },
    {
        let found = captures(self, text_to_search);
        if found.len() == 0 {
            return None;
        }
        let cap = &found[0];
        if group_number < cap.texts.len() {
            cap.texts[group_number]
        } else {
            None
        }
    }

    #[inline]
    fn get_groups<'a>(&self, text_to_search: &'a str) -> (groups: Option<Groups<'a>>)
        ensures
            (match groups {
                Some(first) => Some(first@),
                None => None,
            }) == if captures_in(self@, text_to_search@).len() > 0 {
                Some(captures_in(self@, text_to_search@)[0])
            } else {
                None
            },
    {
        let mut found = captures(self, text_to_search);
        if found.len() == 0 {
            return None;
        }
        Some(found.swap_remove(0))
    }

    fn get_group_values<'a>(&self, text_to_search: &'a str, group_number: usize) -> (values: Vec<
        &'a str,
    >)
        ensures
            texts_view(values@) == group_texts(
                captures_in(self@, text_to_search@),
                group_number as int,
            ),
    {
        let found = captures(self, text_to_search);
        let ghost all = captures_in(self@, text_to_search@);
        let mut values: Vec<&'a str> = Vec::new();
        let mut i: usize = 0;
        while i < found.len()
            invariant
                i <= found@.len(),
                all == groups_view(found@),
                all.len() == found@.len(),
                texts_view(values@) == group_texts(all.take(i as int), group_number as int),
            decreases found@.len() - i,
        {
            let cap = &found[i];
            proof {
                assert(all.take(i + 1).drop_last() =~= all.take(i as int));
            }
            if group_number < cap.texts.len() {
                match cap.texts[group_number] {
                    Some(group_text) => {
                        values.push(group_text);
                    },
                    None => {},
                }
            }
            i = i + 1;
        }
        assert(all.take(i as int) =~= all);
        values
    }

    fn get_matches<'a>(&self, text_to_search: &'a str) -> (found: Vec<&'a str>)
        ensures
            texts_view(found@) == matches_in(self@, text_to_search@),
    {
        matches(self, text_to_search)
    }

    fn get_match_values(&self, text_to_search: &str) -> (values: Vec<String>)
        ensures
            values@.len() == matches_in(self@, text_to_search@).len(),
            forall|i: int|
                0 <= i < values@.len() ==> (#[trigger] values@[i])@ == matches_in(
                    self@,
                    text_to_search@,
                )[i],
    {
        let found = matches(self, text_to_search);
        let mut values: Vec<String> = Vec::new();
        let mut i: usize = 0;
        while i < found.len()
            invariant
                i <= found@.len(),
                values@.len() == i,
                texts_view(found@) == matches_in(self@, text_to_search@),
                forall|j: int| 0 <= j < i ==> (#[trigger] values@[j])@ == found@[j]@,
            decreases found@.len() - i,
        {
            values.push(String::from_str(found[i]));
            i = i + 1;
        }
        assert forall|i: int| 0 <= i < values@.len() implies (#[trigger] values@[i])@
            == matches_in(self@, text_to_search@)[i] by {
        }
        values
    }

    fn match_text_between<'a>(&self, text_to_search: &'a str, last_pos: isize) -> (snippet: Option<
        &'a str,
    >)
        ensures
            match between_match(
                text_to_search.spec_bytes().len() as int,
                match_end_in(self@, text_to_search@),
                last_pos as int,
            ) {
                Some((starts, finish)) => if (last_pos < 0 ==> text_to_search.spec_bytes().len()
                    >= 2) && is_char_boundary(text_to_search.spec_bytes(), finish) {
                    snippet matches Some(piece) && piece.spec_bytes()
                        == text_to_search.spec_bytes().subrange(starts, finish)
                } else {
                    snippet is None
                },
                None => snippet is None,
            },
    {
        let text_len = byte_len(text_to_search);
        if last_pos < 0 && text_len < 2 {
            return None;
        }
        let finish = if last_pos < 0 {
            text_len - 2
        } else if (last_pos as usize) < text_len {
            last_pos as usize
        } else {
            text_len
        };
        let end = match_end(self, text_to_search);
        let fits = match end {
            Some(starts) => finish <= starts || text_to_search.is_char_boundary(finish),
            None => true,
        };
        if fits {
            text_between(text_to_search, end, last_pos)
        } else {
            None
        }
    }
}

/// Extensions of the groups of a match.
pub trait CapturesHelpers {
    /// The text of group `i`, or the empty text where there is no such
    /// group, and where the group took no part in the match.
    fn get_as_str(&self, i: usize) -> &str;

    /// The text of group `i`, or `replacement` where there is no such
    /// group, and where the group took no part in the match.
    fn get_as_str_or<'a>(&'a self, i: usize, replacement: &'a str) -> &'a str;
}

impl CapturesHelpers for Groups<'_> {
    #[inline]
    fn get_as_str(&self, i: usize) -> (group: &str)
        ensures
            group@ == match group_text(self@, i as int) {
                Some(found) => found,
                None => Seq::empty(),
            },
    {
        proof {
            reveal_strlit("");
        }
        self.get_as_str_or(i, EMPTY_STR)
    }

    #[inline]
    fn get_as_str_or<'a>(&'a self, i: usize, replacement: &'a str) -> (group: &'a str)
        ensures
            group@ == match group_text(self@, i as int) {
                Some(found) => found,
                None => replacement@,
            },
    {
        if i < self.texts.len() {
            match self.texts[i] {
                Some(found) => found,
                None => replacement,
            }
        } else {
            replacement
        }
    }
}

} // verus!

//! The syntax of numbers in text: decimal integers and floating-point
//! literals.

use vstd::prelude::*;

use crate::util::text::chars_of;

verus! {

/// Whether `c` is one of the ten ASCII digits.
pub open spec fn is_digit(c: char) -> bool {
    '0' <= c <= '9'
}

/// The number a digit stands for.
pub open spec fn digit_value(c: char) -> int {
    c as int - '0' as int
}

/// Whether `text` consists of ASCII digits only.
pub open spec fn all_digits(text: Seq<char>) -> bool {
    forall|i: int| 0 <= i < text.len() ==> is_digit(#[trigger] text[i])
}

/// The number that a run of digits writes in base ten. The empty run
/// writes zero.
pub open spec fn digits_value(digits: Seq<char>) -> int
    decreases digits.len(),
{
    if digits.len() == 0 {
        0
    } else {
        10 * digits_value(digits.drop_last()) + digit_value(digits.last())
    }
}

/// Whether `text` begins with a plus or a minus sign.
pub open spec fn has_sign(text: Seq<char>) -> bool {
    text.len() > 0 && (text[0] == '+' || text[0] == '-')
}

/// `text` without its sign, if it has one.
pub open spec fn unsigned_part(text: Seq<char>) -> Seq<char> {
    if has_sign(text) {
        text.subrange(1, text.len() as int)
    } else {
        text
    }
}

/// The integer that `text` writes: an optional sign, then one digit or more
/// and nothing else. `None` where `text` is not of that form.
pub open spec fn written_integer(text: Seq<char>) -> Option<int> {
    let digits = unsigned_part(text);
    if digits.len() == 0 || !all_digits(digits) {
        None
    } else if text[0] == '-' {
        Some(-digits_value(digits))
    } else {
        Some(digits_value(digits))
    }
}

/// What parsing `text` as a 64-bit signed integer gives: the integer it
/// writes, where it writes one that fits.
pub open spec fn integer_value(text: Seq<char>) -> Option<i64> {
    match written_integer(text) {
        Some(value) => if i64::MIN <= value <= i64::MAX {
            Some(value as i64)
        } else {
            None
        },
        None => None,
    }
}

/// A run of digits writes a number that is not negative.
pub proof fn lemma_digits_value_nonnegative(digits: Seq<char>)
    requires
        all_digits(digits),
    ensures
        digits_value(digits) >= 0,
    decreases digits.len(),
{
    if digits.len() > 0 {
        lemma_digits_value_nonnegative(digits.drop_last());
        assert(is_digit(digits[digits.len() - 1]));
    }
}

/// Writing more digits behind a run never gives a smaller number.
pub proof fn lemma_digits_value_grows(digits: Seq<char>, shorter: int)
    requires
        all_digits(digits),
        0 <= shorter <= digits.len(),
    ensures
        digits_value(digits.take(shorter)) <= digits_value(digits),
    decreases digits.len() - shorter,
{
    if shorter == digits.len() {
        assert(digits.take(shorter) =~= digits);
    } else {
        lemma_digits_value_grows(digits.drop_last(), shorter);
        assert(digits.drop_last().take(shorter) =~= digits.take(shorter));
        lemma_digits_value_nonnegative(digits.drop_last());
        assert(is_digit(digits[digits.len() - 1]));
    }
}

/// Reads `text` as a decimal integer of 64 bits, as `i64::from_str_radix`
/// with radix ten does: an optional sign, then digits only.
pub fn parse_integer(text: &str) -> (value: Option<i64>)
    ensures
        value == integer_value(text@),
{
    let chars = chars_of(text);
    let length = chars.len();
    if length == 0 {
        return None;
    }
    let negative = chars[0] == '-';
    let start: usize = if chars[0] == '-' || chars[0] == '+' {
        1
    } else {
        0
    };
    if start == length {
        return None;
    }
    let ghost digits = unsigned_part(text@);
    assert(digits.len() == length - start);
    // The magnitude read so far; it never passes 2^63.
    let mut magnitude: u64 = 0;
    let mut next: usize = start;
    while next < length
        invariant
            start <= next <= length,
            chars@ == text@,
            length == chars.len(),
            digits == unsigned_part(text@),
            digits.len() == length - start,
            forall|i: int| 0 <= i < digits.len() ==> digits[i] == chars@[start + i],
            all_digits(digits.take(next - start)),
            magnitude == digits_value(digits.take(next - start)),
            magnitude <= 0x8000_0000_0000_0000,
        decreases length - next,
    {
        let c = chars[next];
        if !('0' <= c && c <= '9') {
            proof {
                assert(!is_digit(digits[next - start]));
            }
            return None;
        }
        let digit: u64 = (c as u64) - ('0' as u64);
        let ghost longer = digits.take(next - start + 1);
        proof {
            assert(longer.drop_last() =~= digits.take(next - start));
            assert(longer.last() == c);
            assert(digits_value(longer) == 10 * magnitude + digit);
            assert forall|i: int| 0 <= i < longer.len() implies is_digit(#[trigger] longer[i]) by {
                if i < next - start {
                    assert(longer[i] == digits.take(next - start)[i]);
                }
            }
        }
        if magnitude > 922337203685477580 || (magnitude == 922337203685477580 && digit > 8) {
            proof {
                // The number is already beyond 2^63, and more digits cannot
                // bring it back.
                if all_digits(digits) {
                    lemma_digits_value_grows(digits, next - start + 1);
                }
            }
            return None;
        }
        magnitude = magnitude * 10 + digit;
        next = next + 1;
    }
    assert(digits.take(length - start) =~= digits);
    if negative {
        if magnitude == 0x8000_0000_0000_0000 {
            Some(i64::MIN)
        } else {
            Some(-(magnitude as i64))
        }
    } else if magnitude == 0x8000_0000_0000_0000 {
        None
    } else {
        Some(magnitude as i64)
    }
}

/// Whether `c` introduces an exponent.
pub open spec fn is_exponent_mark(c: char) -> bool {
    c == 'e' || c == 'E'
}

/// Whether `a` and `b` are the same letter, or differ only in that `a` is
/// the ASCII capital of `b`.
pub open spec fn same_letter(a: char, b: char) -> bool {
    a == b || ('A' <= a <= 'Z' && a as int + 32 == b as int)
}

/// Whether `text` is `word`, whatever the case of its ASCII letters. `word`
/// is meant to be in lower case.
pub open spec fn spells(text: Seq<char>, word: Seq<char>) -> bool {
    text.len() == word.len() && forall|i: int|
        0 <= i < text.len() ==> same_letter(#[trigger] text[i], word[i])
}

/// Whether `text` names one of the values that are no finite number: `inf`,
/// `infinity` or `nan`, in any case.
pub open spec fn is_special_value(text: Seq<char>) -> bool {
    ||| spells(text, seq!['i', 'n', 'f'])
    ||| spells(text, seq!['i', 'n', 'f', 'i', 'n', 'i', 't', 'y'])
    ||| spells(text, seq!['n', 'a', 'n'])
}

/// Whether `text` is a mantissa: digits with at most one decimal point among
/// them, before them or behind them, and at least one digit.
pub open spec fn is_mantissa(text: Seq<char>) -> bool {
    ||| text.len() >= 1 && all_digits(text)
    ||| exists|dot: int|
        {
            &&& 0 <= dot < text.len()
            &&& #[trigger] text[dot] == '.'
            &&& text.len() >= 2
            &&& all_digits(text.subrange(0, dot))
            &&& all_digits(text.subrange(dot + 1, text.len() as int))
        }
}

/// Whether `text` is an exponent: the letter `e` in either case, an optional
/// sign, and one digit or more.
pub open spec fn is_exponent(text: Seq<char>) -> bool {
    &&& text.len() >= 2
    &&& is_exponent_mark(text[0])
    &&& unsigned_part(text.subrange(1, text.len() as int)).len() >= 1
    &&& all_digits(unsigned_part(text.subrange(1, text.len() as int)))
}

/// Whether `text` is a mantissa, or a mantissa followed by an exponent.
pub open spec fn is_decimal_number(text: Seq<char>) -> bool {
    ||| is_mantissa(text)
    ||| exists|cut: int|
        {
            &&& 0 < cut < text.len()
            &&& is_exponent_mark(#[trigger] text[cut])
            &&& is_mantissa(text.subrange(0, cut))
            &&& is_exponent(text.subrange(cut, text.len() as int))
        }
}

/// Whether `text` is a floating-point literal as `f64::from_str` accepts it:
/// an optional sign, then a special value or a decimal number.
pub open spec fn is_float_literal(text: Seq<char>) -> bool {
    is_special_value(unsigned_part(text)) || is_decimal_number(unsigned_part(text))
}

/// Whether the characters from `from` up to `to` are digits only.
fn digits_only(chars: &Vec<char>, from: usize, to: usize) -> (ok: bool)
    requires
        from <= to <= chars.len(),
    ensures
        ok == all_digits(chars@.subrange(from as int, to as int)),
{
    let ghost part = chars@.subrange(from as int, to as int);
    let mut next: usize = from;
    while next < to
        invariant
            from <= next <= to <= chars.len(),
            part == chars@.subrange(from as int, to as int),
            forall|i: int| 0 <= i < next - from ==> is_digit(#[trigger] part[i]),
        decreases to - next,
    {
        let c = chars[next];
        if !('0' <= c && c <= '9') {
            assert(!is_digit(part[next - from]));
            return false;
        }
        next = next + 1;
    }
    true
}

/// The first place from `from` up to `to` that holds the character `wanted`
/// or the character `capital`; `to` if neither occurs there.
fn first_place_of(chars: &Vec<char>, from: usize, to: usize, wanted: char, capital: char) -> (place:
    usize)
    requires
        from <= to <= chars.len(),
    ensures
        from <= place <= to,
        place < to ==> chars[place as int] == wanted || chars[place as int] == capital,
        forall|i: int| from <= i < place ==> chars[i] != wanted && chars[i] != capital,
{
    let mut place: usize = from;
    while place < to
        invariant
            from <= place <= to <= chars.len(),
            forall|i: int| from <= i < place ==> chars[i] != wanted && chars[i] != capital,
        decreases to - place,
    {
        if chars[place] == wanted || chars[place] == capital {
            return place;
        }
        place = place + 1;
    }
    place
}

/// Whether the characters from `from` up to `to` spell `word`, whatever the
/// case of their ASCII letters.
fn spells_word(chars: &Vec<char>, from: usize, to: usize, word: &Vec<char>) -> (ok: bool)
    requires
        from <= to <= chars.len(),
    ensures
        ok == spells(chars@.subrange(from as int, to as int), word@),
{
    if to - from != word.len() {
        return false;
    }
    let ghost part = chars@.subrange(from as int, to as int);
    let mut next: usize = 0;
    while next < word.len()
        invariant
            from <= to <= chars.len(),
            to - from == word.len(),
            next <= word.len(),
            part == chars@.subrange(from as int, to as int),
            forall|i: int| 0 <= i < next ==> same_letter(#[trigger] part[i], word[i]),
        decreases word.len() - next,
    {
        let c = chars[from + next];
        let w = word[next];
        assert(part[next as int] == c);
        let same = c == w || ('A' <= c && c <= 'Z' && (((c as u8) + 32) as char) == w);
        if !same {
            assert(!same_letter(part[next as int], word[next as int]));
            return false;
        }
        next = next + 1;
    }
    true
}

/// Whether the characters from `from` up to `to` name a special value.
fn special_value_at(chars: &Vec<char>, from: usize, to: usize) -> (ok: bool)
    requires
        from <= to <= chars.len(),
    ensures
        ok == is_special_value(chars@.subrange(from as int, to as int)),
{
    let inf: Vec<char> = vec!['i', 'n', 'f'];
    let infinity: Vec<char> = vec!['i', 'n', 'f', 'i', 'n', 'i', 't', 'y'];
    let nan: Vec<char> = vec!['n', 'a', 'n'];
    assert(inf@ =~= seq!['i', 'n', 'f']);
    assert(infinity@ =~= seq!['i', 'n', 'f', 'i', 'n', 'i', 't', 'y']);
    assert(nan@ =~= seq!['n', 'a', 'n']);
    spells_word(chars, from, to, &inf) || spells_word(chars, from, to, &infinity) || spells_word(
        chars,
        from,
        to,
        &nan,
    )
}

/// Whether the characters from `from` up to `to` are a mantissa.
fn mantissa_at(chars: &Vec<char>, from: usize, to: usize) -> (ok: bool)
    requires
        from <= to <= chars.len(),
    ensures
        ok == is_mantissa(chars@.subrange(from as int, to as int)),
{
    let ghost part = chars@.subrange(from as int, to as int);
    let dot = first_place_of(chars, from, to, '.', '.');
    if dot == to {
        let ok = to > from && digits_only(chars, from, to);
        proof {
            // No decimal point anywhere, so only the first form is left.
            assert forall|k: int| 0 <= k < part.len() implies #[trigger] part[k] != '.' by {
                assert(part[k] == chars[from + k]);
            }
        }
        ok
    } else {
        let ok = to - from >= 2 && digits_only(chars, from, dot) && digits_only(chars, dot + 1, to);
        proof {
            let at = dot - from;
            assert(part[at] == '.');
            assert(part.subrange(0, at) =~= chars@.subrange(from as int, dot as int));
            assert(part.subrange(at + 1, part.len() as int) =~= chars@.subrange(
                dot + 1,
                to as int,
            ));
            assert(!is_digit('.'));
            if is_mantissa(part) {
                // A mantissa with a point has its point where the first
                // point stands: before it there are digits only.
                assert(!all_digits(part));
                let other = choose|other: int|
                    {
                        &&& 0 <= other < part.len()
                        &&& #[trigger] part[other] == '.'
                        &&& part.len() >= 2
                        &&& all_digits(part.subrange(0, other))
                        &&& all_digits(part.subrange(other + 1, part.len() as int))
                    };
                if at < other {
                    assert(part.subrange(0, other)[at] == '.');
                }
                if other < at {
                    assert(part[other] == chars[from + other]);
                }
                assert(other == at);
            }
        }
        ok
    }
}

/// Whether the characters from `from` up to `to` are an exponent.
fn exponent_at(chars: &Vec<char>, from: usize, to: usize) -> (ok: bool)
    requires
        from <= to <= chars.len(),
    ensures
        ok == is_exponent(chars@.subrange(from as int, to as int)),
{
    let ghost part = chars@.subrange(from as int, to as int);
    if to - from < 2 {
        return false;
    }
    assert(part[0] == chars[from as int]);
    if !(chars[from] == 'e' || chars[from] == 'E') {
        return false;
    }
    let ghost tail = part.subrange(1, part.len() as int);
    assert(tail =~= chars@.subrange(from + 1, to as int));
    assert(tail[0] == chars[from + 1]);
    let digits_from: usize = if chars[from + 1] == '+' || chars[from + 1] == '-' {
        from + 2
    } else {
        from + 1
    };
    assert(unsigned_part(tail) =~= chars@.subrange(digits_from as int, to as int));
    digits_from < to && digits_only(chars, digits_from, to)
}

/// A mantissa holds digits and decimal points only.
proof fn lemma_mantissa_has_no_mark(text: Seq<char>, place: int)
    requires
        is_mantissa(text),
        0 <= place < text.len(),
    ensures
        !is_exponent_mark(text[place]),
{
    if text.len() >= 1 && all_digits(text) {
        assert(is_digit(text[place]));
    } else {
        let dot = choose|dot: int|
            {
                &&& 0 <= dot < text.len()
                &&& #[trigger] text[dot] == '.'
                &&& text.len() >= 2
                &&& all_digits(text.subrange(0, dot))
                &&& all_digits(text.subrange(dot + 1, text.len() as int))
            };
        if place < dot {
            assert(is_digit(text.subrange(0, dot)[place]));
        } else if place > dot {
            assert(is_digit(text.subrange(dot + 1, text.len() as int)[place - dot - 1]));
        }
    }
}

/// Whether `text` is a floating-point literal: what `str::parse::<f64>`
/// accepts. The check reads the syntax only and computes no number.
pub fn float_literal(text: &str) -> (ok: bool)
    ensures
        ok == is_float_literal(text@),
{
    let chars = chars_of(text);
    let length = chars.len();
    let start: usize = if length > 0 && (chars[0] == '+' || chars[0] == '-') {
        1
    } else {
        0
    };
    let ghost body = unsigned_part(text@);
    assert(body =~= chars@.subrange(start as int, length as int));
    if special_value_at(&chars, start, length) {
        return true;
    }
    let cut = first_place_of(&chars, start, length, 'e', 'E');
    let ghost at = cut - start;
    assert(body.subrange(0, at) =~= chars@.subrange(start as int, cut as int));
    assert(body.subrange(at, body.len() as int) =~= chars@.subrange(cut as int, length as int));
    let mantissa_ok = mantissa_at(&chars, start, cut);
    let ok = mantissa_ok && (cut == length || exponent_at(&chars, cut, length));
    proof {
        assert forall|k: int| 0 <= k < at implies !is_exponent_mark(#[trigger] body[k]) by {
            assert(body[k] == chars[start + k]);
        }
        if ok {
            if cut == length {
                assert(body.subrange(0, at) =~= body);
            } else {
                assert(at > 0) by {
                    if at == 0 {
                        assert(body.subrange(0, at).len() == 0);
                    }
                }
                assert(is_exponent_mark(body[at]));
            }
            assert(is_decimal_number(body));
        }
        if is_decimal_number(body) {
            if is_mantissa(body) {
                // No mark in a mantissa, so the scan ran to the end.
                if cut < length {
                    lemma_mantissa_has_no_mark(body, at);
                    assert(body[at] == chars[cut as int]);
                }
                assert(cut == length);
                assert(body.subrange(0, at) =~= body);
            } else {
                let other = choose|other: int|
                    {
                        &&& 0 < other < body.len()
                        &&& is_exponent_mark(#[trigger] body[other])
                        &&& is_mantissa(body.subrange(0, other))
                        &&& is_exponent(body.subrange(other, body.len() as int))
                    };
                // The exponent begins at the first mark: before it stands
                // a mantissa, which holds none.
                if at < other {
                    lemma_mantissa_has_no_mark(body.subrange(0, other), at);
                    assert(body.subrange(0, other)[at] == body[at]);
                    assert(body[at] == chars[cut as int]);
                }
                assert(other == at);
            }
            assert(ok);
        }
    }
    ok
}

/// A floating-point number in writing: a text that is known to be a
/// floating-point literal. Its view is that text.
#[derive(Debug)]
pub struct Decimal {
    text: String,
}

impl View for Decimal {
    type V = Seq<char>;

    closed spec fn view(&self) -> Seq<char> {
        self.text@
    }
}

impl DeepView for Decimal {
    type V = Seq<char>;

    open spec fn deep_view(&self) -> Seq<char> {
        self@
    }
}

impl Decimal {
    #[verifier::type_invariant]
    spec fn holds_literal(self) -> bool {
        is_float_literal(self.text@)
    }

    /// Takes `text` as a number if it is a floating-point literal, and hands
    /// it back if it is not.
    pub fn new(text: String) -> (result: Result<Decimal, String>)
        ensures
            match result {
                Ok(number) => is_float_literal(text@) && number@ == text@,
                Err(back) => !is_float_literal(text@) && back@ == text@,
            },
    {
        if float_literal(text.as_str()) {
            Ok(Decimal { text })
        } else {
            Err(text)
        }
    }

    /// The literal. It parses as an `f64`.
    pub fn as_str(&self) -> (text: &str)
        ensures
            text@ == self@,
            is_float_literal(text@),
    {
        proof {
            use_type_invariant(self);
        }
        self.text.as_str()
    }
}

impl Clone for Decimal {
    fn clone(&self) -> (copy: Decimal)
        ensures
            copy@ == self@,
    {
        proof {
            use_type_invariant(self);
        }
        Decimal { text: self.text.clone() }
    }
}

} // verus!

//! Numbers in decimal notation. A `Decimal` carries a number as the text of
//! a JSON number literal, so that a coordinate or a fractional property
//! passes through the library exactly as it was written.

use crate::text::{
    all_digits, chars_of, digits_value, int_text, int_to_text, is_digit, lemma_nat_text_reads_back,
    nat_text, text_eq,
};
use vstd::prelude::*;

verus! {

/// The index just behind the run of decimal digits that starts at `from`.
pub open spec fn digits_end(s: Seq<char>, from: int) -> int
    decreases s.len() - from,
{
    if 0 <= from < s.len() && is_digit(s[from]) {
        digits_end(s, from + 1)
    } else {
        from
    }
}

/// Where the digits of an exponent begin, if an exponent mark stands at
/// `at`; `at` itself if none does.
pub open spec fn exponent_digits_start(s: Seq<char>, at: int) -> int {
    if 0 <= at < s.len() && (s[at] == 'e' || s[at] == 'E') {
        if at + 1 < s.len() && (s[at + 1] == '+' || s[at + 1] == '-') {
            at + 2
        } else {
            at + 1
        }
    } else {
        at
    }
}

/// Whether `s` is a JSON number literal: an optional minus sign, an integer
/// part without a leading zero, an optional fraction, an optional exponent.
pub open spec fn is_number_literal(s: Seq<char>) -> bool {
    let start = if s.len() > 0 && s[0] == '-' {
        1int
    } else {
        0int
    };
    let int_end = digits_end(s, start);
    let frac_end = if int_end < s.len() && s[int_end] == '.' {
        digits_end(s, int_end + 1)
    } else {
        int_end
    };
    let exp_start = exponent_digits_start(s, frac_end);
    let end = if exp_start > frac_end {
        digits_end(s, exp_start)
    } else {
        frac_end
    };
    &&& int_end > start
    &&& (s[start] == '0' ==> int_end == start + 1)
    &&& (frac_end > int_end ==> frac_end > int_end + 1)
    &&& (exp_start > frac_end ==> end > exp_start)
    &&& end == s.len()
}

/// The integer that `s` is the decimal numeral of, if it is that of a
/// 64-bit signed integer: no fraction, no exponent, no leading zero, no
/// negative zero.
pub open spec fn integer_literal_value(s: Seq<char>) -> Option<int> {
    let negative = s.len() > 0 && s[0] == '-';
    let digits = if negative {
        s.skip(1)
    } else {
        s
    };
    let magnitude = digits_value(digits) as int;
    let value = if negative {
        -magnitude
    } else {
        magnitude
    };
    if i64::MIN <= value <= i64::MAX && int_text(value) == s {
        Some(value)
    } else {
        None
    }
}

/// A run of digits ends where the text does, if only digits follow.
pub proof fn lemma_digits_end_all(s: Seq<char>, from: int)
    requires
        0 <= from <= s.len(),
        forall|i: int| from <= i < s.len() ==> is_digit(#[trigger] s[i]),
    ensures
        digits_end(s, from) == s.len(),
    decreases s.len() - from,
{
    if from < s.len() {
        lemma_digits_end_all(s, from + 1);
    }
}

/// The numeral of an integer is a number literal.
pub proof fn lemma_int_text_is_literal(i: int)
    ensures
        is_number_literal(int_text(i)),
{
    let s = int_text(i);
    let magnitude = if i < 0 {
        (-i) as nat
    } else {
        i as nat
    };
    let digits = nat_text(magnitude);
    lemma_nat_text_reads_back(magnitude);
    let start = if i < 0 {
        1int
    } else {
        0int
    };
    assert(is_digit(digits[0]));
    assert(forall|k: int| start <= k < s.len() ==> #[trigger] s[k] == digits[k - start]);
    assert(s[start] == digits[0]);
    lemma_digits_end_all(s, start);
    if magnitude == 0 {
        assert(s.len() == start + 1);
    }
}

/// `integer_literal_value` finds exactly the numerals of the 64-bit signed
/// integers, and for each the integer that it writes.
pub proof fn lemma_integer_literal(s: Seq<char>, i: int)
    ensures
        integer_literal_value(s) == Some(i) <==> (i64::MIN <= i <= i64::MAX && s == int_text(i)),
{
    if i64::MIN <= i <= i64::MAX && s == int_text(i) {
        if i < 0 {
            let digits = nat_text((-i) as nat);
            lemma_nat_text_reads_back((-i) as nat);
            assert(s[0] == '-');
            assert(s.skip(1) == digits);
        } else {
            lemma_nat_text_reads_back(i as nat);
            assert(is_digit(s[0]));
        }
    }
}

/// Where a text is the numeral of an integer, its digits are digits.
proof fn lemma_integer_literal_digits(s: Seq<char>)
    requires
        integer_literal_value(s) is Some,
    ensures
        ({
            let digits = if s.len() > 0 && s[0] == '-' {
                s.skip(1)
            } else {
                s
            };
            digits.len() >= 1 && all_digits(digits)
        }),
{
    let value = integer_literal_value(s).unwrap();
    if value < 0 {
        lemma_nat_text_reads_back((-value) as nat);
        assert(s.skip(1) == nat_text((-value) as nat));
    } else {
        lemma_nat_text_reads_back(value as nat);
        assert(is_digit(s[0]));
    }
}

/// Reading more digits never gives a smaller number.
proof fn lemma_digits_value_grows(s: Seq<char>, k: int)
    requires
        0 <= k <= s.len(),
        all_digits(s),
    ensures
        digits_value(s.take(k)) <= digits_value(s),
    decreases s.len() - k,
{
    if k < s.len() {
        let longer = s.take(k + 1);
        assert(longer.drop_last() == s.take(k));
        assert(is_digit(longer.last()));
        lemma_digits_value_grows(s, k + 1);
    } else {
        assert(s.take(k) == s);
    }
}

/// A number in decimal notation.
pub struct Decimal {
    literal: String,
}

impl View for Decimal {
    type V = Seq<char>;

    closed spec fn view(&self) -> Seq<char> {
        self.literal@
    }
}

fn scan_digits(chars: &Vec<char>, from: usize) -> (end: usize)
    requires
        from <= chars.len(),
    ensures
        end == digits_end(chars@, from as int),
        from <= end <= chars.len(),
{
    let mut at = from;
    while at < chars.len() && chars[at] >= '0' && chars[at] <= '9'
        invariant
            from <= at <= chars.len(),
            digits_end(chars@, from as int) == digits_end(chars@, at as int),
        decreases chars.len() - at,
    {
        at = at + 1;
    }
    at
}

impl Decimal {
    #[verifier::type_invariant]
    spec fn well_formed(self) -> bool {
        is_number_literal(self.literal@)
    }

    /// Every `Decimal` holds a number literal.
    pub fn is_literal(&self)
        ensures
            is_number_literal(self@),
    {
        proof {
            use_type_invariant(self);
        }
    }

    /// Reads a number literal. Any other text is refused.
    pub fn parse(text: &str) -> (r: Option<Decimal>)
        ensures
            r is Some <==> is_number_literal(text@),
            r matches Some(d) ==> d@ == text@,
    {
        let chars = chars_of(text);
        let n = chars.len();
        let start: usize = if n > 0 && chars[0] == '-' {
            1
        } else {
            0
        };
        let int_end = scan_digits(&chars, start);
        if int_end == start {
            return None;
        }
        if chars[start] == '0' && int_end != start + 1 {
            return None;
        }
        let frac_end = if int_end < n && chars[int_end] == '.' {
            let behind = scan_digits(&chars, int_end + 1);
            if behind == int_end + 1 {
                return None;
            }
            behind
        } else {
            int_end
        };
        let exp_start = if frac_end < n && (chars[frac_end] == 'e' || chars[frac_end] == 'E') {
            if frac_end + 1 < n && (chars[frac_end + 1] == '+' || chars[frac_end + 1] == '-') {
                frac_end + 2
            } else {
                frac_end + 1
            }
        } else {
            frac_end
        };
        let end = if exp_start > frac_end {
            scan_digits(&chars, exp_start)
        } else {
            frac_end
        };
        if exp_start > frac_end && end == exp_start {
            return None;
        }
        if end != n {
            return None;
        }
        Some(Decimal { literal: text.to_owned() })
    }

    /// The numeral of `i`.
    pub fn from_int(i: i64) -> (r: Decimal)
        ensures
            r@ == int_text(i as int),
    {
        proof {
            lemma_int_text_is_literal(i as int);
        }
        Decimal { literal: int_to_text(i) }
    }

    /// The literal's text.
    pub fn as_text(&self) -> (r: &str)
        ensures
            r@ == self@,
    {
        self.literal.as_str()
    }

    /// A copy of this number.
    pub fn duplicate(&self) -> (r: Decimal)
        ensures
            r@ == self@,
    {
        proof {
            use_type_invariant(self);
        }
        Decimal { literal: self.literal.clone() }
    }

    /// The integer that this literal is the numeral of, if it is the numeral
    /// of a 64-bit signed integer.
    pub fn to_integer(&self) -> (r: Option<i64>)
        ensures
            r is Some <==> integer_literal_value(self@) is Some,
            r matches Some(i) ==> integer_literal_value(self@) == Some(i as int),
    {
        let chars = chars_of(self.literal.as_str());
        let n = chars.len();
        let negative = n > 0 && chars[0] == '-';
        let start: usize = if negative {
            1
        } else {
            0
        };
        let ghost digits = if negative {
            chars@.skip(1)
        } else {
            chars@
        };
        if start >= n {
            proof {
                if integer_literal_value(chars@) is Some {
                    lemma_integer_literal_digits(chars@);
                }
            }
            return None;
        }
        let mut magnitude: u128 = 0;
        let mut at: usize = start;
        while at < n
            invariant
                start <= at <= n,
                n == chars.len(),
                chars@ == self@,
                negative == (chars@.len() > 0 && chars@[0] == '-'),
                start == (if negative { 1int } else { 0int }),
                digits == (if negative { chars@.skip(1) } else { chars@ }),
                digits.len() == n - start,
                forall|k: int| 0 <= k < digits.len() ==> digits[k] == chars@[k + start],
                forall|k: int| 0 <= k < at - start ==> is_digit(#[trigger] digits[k]),
                magnitude == digits_value(digits.take(at - start)),
                magnitude <= 0x8000_0000_0000_0000,
            decreases n - at,
        {
            let c = chars[at];
            if !(c >= '0' && c <= '9') {
                proof {
                    if integer_literal_value(chars@) is Some {
                        lemma_integer_literal_digits(chars@);
                        assert(is_digit(digits[at - start]));
                    }
                }
                return None;
            }
            let d: u128 = (c as u8 - '0' as u8) as u128;
            let ghost longer = digits.take(at - start + 1);
            assert(longer.drop_last() == digits.take(at - start));
            assert(longer.last() == c);
            magnitude = magnitude * 10 + d;
            if magnitude > 0x8000_0000_0000_0000 {
                proof {
                    if integer_literal_value(chars@) is Some {
                        lemma_integer_literal_digits(chars@);
                        lemma_digits_value_grows(digits, at - start + 1);
                    }
                }
                return None;
            }
            at = at + 1;
        }
        assert(digits.take(n - start) == digits);
        if !negative && magnitude > 0x7fff_ffff_ffff_ffff {
            return None;
        }
        let value: i64 = if negative {
            (-(magnitude as i128)) as i64
        } else {
            magnitude as i64
        };
        let numeral = int_to_text(value);
        if text_eq(numeral.as_str(), self.literal.as_str()) {
            Some(value)
        } else {
            None
        }
    }
}

impl Clone for Decimal {
    fn clone(&self) -> (r: Self)
        ensures
            r@ == self@,
    {
        self.duplicate()
    }
}

} // verus!

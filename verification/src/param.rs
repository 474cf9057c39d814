//! Turning the text a placeholder captured into a value of its declared type.

use vstd::prelude::*;

verus! {

/// The type a placeholder declares for the text it captures.
#[derive(Debug, Clone, Copy, PartialEq, Eq, Structural)]
pub enum ParamType {
    U8,
    U16,
    U32,
    U64,
    I8,
    I16,
    I32,
    I64,
    Text,
}

/// A captured parameter after conversion to its declared type.
#[derive(Debug, Clone, PartialEq, Eq)]
pub enum ParamValue {
    Unsigned(u64),
    Signed(i64),
    Text(String),
}

/// What a `ParamValue` stands for: an integer, or the characters of a text.
pub enum ParamModel {
    Unsigned(int),
    Signed(int),
    Text(Seq<char>),
}

impl View for ParamValue {
    type V = ParamModel;

    open spec fn view(&self) -> ParamModel {
        match self {
            ParamValue::Unsigned(n) => ParamModel::Unsigned(*n as int),
            ParamValue::Signed(n) => ParamModel::Signed(*n as int),
            ParamValue::Text(s) => ParamModel::Text(s@),
        }
    }
}

impl ParamType {
    /// Whether the type is one of the unsigned integers.
    pub open spec fn is_unsigned(self) -> bool {
        self == ParamType::U8 || self == ParamType::U16 || self == ParamType::U32 || self
            == ParamType::U64
    }

    /// Whether the type is one of the signed integers.
    pub open spec fn is_signed(self) -> bool {
        self == ParamType::I8 || self == ParamType::I16 || self == ParamType::I32 || self
            == ParamType::I64
    }

    /// The greatest value of an integer type (0 for `Text`).
    pub open spec fn max_value(self) -> int {
        match self {
            ParamType::U8 => 0xff,
            ParamType::U16 => 0xffff,
            ParamType::U32 => 0xffff_ffff,
            ParamType::U64 => 0xffff_ffff_ffff_ffff,
            ParamType::I8 => 0x7f,
            ParamType::I16 => 0x7fff,
            ParamType::I32 => 0x7fff_ffff,
            ParamType::I64 => 0x7fff_ffff_ffff_ffff,
            ParamType::Text => 0,
        }
    }

    /// The least value of an integer type (0 for `Text`).
    pub open spec fn min_value(self) -> int {
        if self.is_signed() {
            -self.max_value() - 1
        } else {
            0
        }
    }
}

/// Whether `c` is one of the ten decimal digits.
pub open spec fn is_digit(c: char) -> bool {
    '0' <= c && c <= '9'
}

/// The number a decimal digit stands for.
pub open spec fn digit_value(c: char) -> int {
    c as int - '0' as int
}

/// Whether every character of `s` is a decimal digit.
pub open spec fn all_digits(s: Seq<char>) -> bool {
    forall|i: int| 0 <= i < s.len() ==> is_digit(#[trigger] s[i])
}

/// The number that a run of decimal digits writes, most significant first.
pub open spec fn decimal_value(s: Seq<char>) -> int
    decreases s.len(),
{
    if s.len() == 0 {
        0
    } else {
        decimal_value(s.drop_last()) * 10 + digit_value(s.last())
    }
}

/// The number that a non-empty run of digits writes, if it is at most `limit`.
pub open spec fn parse_magnitude(s: Seq<char>, limit: int) -> Option<int> {
    if s.len() > 0 && all_digits(s) && decimal_value(s) <= limit {
        Some(decimal_value(s))
    } else {
        None
    }
}

/// Decimal text as an unsigned integer no greater than `max`: digits, with an
/// optional `+` in front.
pub open spec fn parse_unsigned(s: Seq<char>, max: int) -> Option<int> {
    if s.len() > 0 && s[0] == '+' {
        parse_magnitude(s.skip(1), max)
    } else {
        parse_magnitude(s, max)
    }
}

/// Decimal text as a signed integer between `-max - 1` and `max`: digits, with
/// an optional `+` or `-` in front.
pub open spec fn parse_signed(s: Seq<char>, max: int) -> Option<int> {
    if s.len() > 0 && s[0] == '-' {
        match parse_magnitude(s.skip(1), max + 1) {
            Some(m) => Some(-m),
            None => None,
        }
    } else {
        parse_unsigned(s, max)
    }
}

/// The value that `raw` converts to under `ty`, or `None` where it does not
/// write a value of that type. Text converts to itself.
pub open spec fn coerce_spec(raw: Seq<char>, ty: ParamType) -> Option<ParamModel> {
    if ty == ParamType::Text {
        Some(ParamModel::Text(raw))
    } else if ty.is_unsigned() {
        match parse_unsigned(raw, ty.max_value()) {
            Some(n) => Some(ParamModel::Unsigned(n)),
            None => None,
        }
    } else {
        match parse_signed(raw, ty.max_value()) {
            Some(n) => Some(ParamModel::Signed(n)),
            None => None,
        }
    }
}

/// A run of digits writes at least what any of its prefixes writes.
pub proof fn lemma_decimal_value_prefix(s: Seq<char>, k: int)
    requires
        all_digits(s),
        0 <= k <= s.len(),
    ensures
        0 <= decimal_value(s.subrange(0, k)) <= decimal_value(s),
    decreases s.len() - k,
{
    if k == s.len() {
        assert(s.subrange(0, k) =~= s);
        lemma_decimal_value_nonnegative(s);
    } else {
        lemma_decimal_value_prefix(s, k + 1);
        let t = s.subrange(0, k + 1);
        assert(t.drop_last() =~= s.subrange(0, k));
        assert(is_digit(s[k]));
        assert(t.last() == s[k]);
        lemma_decimal_value_nonnegative(s.subrange(0, k));
    }
}

/// A run of digits writes a number that is not negative.
pub proof fn lemma_decimal_value_nonnegative(s: Seq<char>)
    requires
        all_digits(s),
    ensures
        0 <= decimal_value(s),
    decreases s.len(),
{
    if s.len() > 0 {
        assert(is_digit(s[s.len() - 1]));
        lemma_decimal_value_nonnegative(s.drop_last());
    }
}

/// A converted value is of the kind that its declared type asks for, and an
/// integer lies within the range of that type.
pub proof fn lemma_coerced_value_fits_type(raw: Seq<char>, ty: ParamType)
    requires
        coerce_spec(raw, ty) is Some,
    ensures
        match coerce_spec(raw, ty)->Some_0 {
            ParamModel::Unsigned(n) => ty.is_unsigned() && 0 <= n <= ty.max_value(),
            ParamModel::Signed(n) => ty.is_signed() && ty.min_value() <= n <= ty.max_value(),
            ParamModel::Text(text) => ty == ParamType::Text && text == raw,
        },
{
    if raw.len() > 0 {
        if all_digits(raw) {
            lemma_decimal_value_nonnegative(raw);
        }
        if all_digits(raw.skip(1)) {
            lemma_decimal_value_nonnegative(raw.skip(1));
        }
    }
}

/// How many characters of `s` are a sign: one where it starts with `+`, or,
/// for a signed type, with `-`.
pub open spec fn sign_len(s: Seq<char>, signed: bool) -> int {
    if s.len() > 0 && (s[0] == '+' || (signed && s[0] == '-')) {
        1
    } else {
        0
    }
}

/// Whether `s` writes a negative number of a signed type.
pub open spec fn is_negative(s: Seq<char>, signed: bool) -> bool {
    signed && s.len() > 0 && s[0] == '-'
}

/// The sign and the magnitude that `s` writes in decimal, where the magnitude
/// is at most `max`, or `max + 1` behind a `-`.
pub open spec fn parse_decimal_spec(s: Seq<char>, signed: bool, max: int) -> Option<(bool, int)> {
    let limit = if is_negative(s, signed) {
        max + 1
    } else {
        max
    };
    match parse_magnitude(s.skip(sign_len(s, signed)), limit) {
        Some(m) => Some((is_negative(s, signed), m)),
        None => None,
    }
}

/// Reads `s` as a decimal integer: an optional sign, then one digit or more.
/// Gives the sign and the magnitude, or `None` where `s` is not of that shape
/// or the magnitude is over the limit.
pub fn parse_decimal(s: &str, signed: bool, max: u64) -> (r: Option<(bool, u64)>)
    requires
        signed ==> max < u64::MAX,
    ensures
        match r {
            Some((negative, m)) => parse_decimal_spec(s@, signed, max as int) == Some(
                (negative, m as int),
            ),
            None => parse_decimal_spec(s@, signed, max as int) is None,
        },
{
    let mut negative = false;
    let mut limit: u64 = max;
    let mut acc: u64 = 0;
    let mut seen = false;
    let mut ok = true;
    let mut at_start = true;
    let ghost digits = s@.skip(sign_len(s@, signed));
    for c in it: s.chars()
        invariant
            it.seq() == s@,
            signed ==> max < u64::MAX,
            at_start == (it.index() == 0),
            digits == s@.skip(sign_len(s@, signed)),
            it.index() == 0 ==> !negative && limit == max && acc == 0 && !seen && ok,
            it.index() > 0 ==> negative == is_negative(s@, signed),
            it.index() > 0 && negative ==> limit == max + 1,
            it.index() > 0 && !negative ==> limit == max,
            ok && it.index() > 0 ==> seen == (it.index() > sign_len(s@, signed)),
            ok && it.index() > 0 ==> all_digits(
                digits.subrange(0, it.index() - sign_len(s@, signed)),
            ),
            ok && it.index() > 0 ==> acc == decimal_value(
                digits.subrange(0, it.index() - sign_len(s@, signed)),
            ),
            ok ==> acc <= limit,
            !ok ==> parse_decimal_spec(s@, signed, max as int) is None,
    {
        let ghost i = it.index() as int;
        if ok {
            if c >= '0' && c <= '9' {
                let d: u64 = (c as u32 - '0' as u32) as u64;
                proof {
                    let k = i - sign_len(s@, signed);
                    let t = digits.subrange(0, k + 1);
                    assert(t.drop_last() =~= digits.subrange(0, k));
                    assert(t.last() == c);
                    assert(digits.subrange(0, 0) =~= Seq::<char>::empty());
                    assert forall|j: int| 0 <= j < t.len() implies is_digit(#[trigger] t[j]) by {
                        if j < k {
                            assert(is_digit(digits.subrange(0, k)[j]));
                        }
                    }
                    if all_digits(digits) {
                        lemma_decimal_value_prefix(digits, k + 1);
                    }
                }
                if acc > limit / 10 || limit - acc * 10 < d {
                    ok = false;
                } else {
                    acc = acc * 10 + d;
                    seen = true;
                }
            } else if at_start && (c == '+' || (signed && c == '-')) {
                proof {
                    assert(sign_len(s@, signed) == 1);
                    assert(digits.subrange(0, 0) =~= Seq::<char>::empty());
                    assert(decimal_value(digits.subrange(0, 0)) == 0);
                }
                if c == '-' {
                    negative = true;
                    limit = max + 1;
                }
            } else {
                proof {
                    let k = i - sign_len(s@, signed);
                    assert(digits[k] == c);
                    assert(!is_digit(digits[k]));
                }
                ok = false;
            }
        }
        at_start = false;
    }
    proof {
        if ok {
            assert(digits.subrange(0, digits.len() as int) =~= digits);
        }
    }
    if ok && seen {
        Some((negative, acc))
    } else {
        None
    }
}

impl ParamType {
    /// The greatest value of the type, as a machine integer.
    pub fn upper_bound(self) -> (m: u64)
        ensures
            m == self.max_value(),
    {
        match self {
            ParamType::U8 => 0xff,
            ParamType::U16 => 0xffff,
            ParamType::U32 => 0xffff_ffff,
            ParamType::U64 => 0xffff_ffff_ffff_ffff,
            ParamType::I8 => 0x7f,
            ParamType::I16 => 0x7fff,
            ParamType::I32 => 0x7fff_ffff,
            ParamType::I64 => 0x7fff_ffff_ffff_ffff,
            ParamType::Text => 0,
        }
    }

    /// Whether the type is a signed integer.
    pub fn signed(self) -> (b: bool)
        ensures
            b == self.is_signed(),
    {
        match self {
            ParamType::I8 | ParamType::I16 | ParamType::I32 | ParamType::I64 => true,
            _ => false,
        }
    }
}

/// Converts the text a placeholder captured to the placeholder's type.
///
/// Text converts to itself and never fails. An integer type takes decimal
/// digits behind an optional sign and fails on anything else, and on a number
/// outside the type's range. Failure is an ordinary outcome: `None`.
pub fn coerce(raw: &str, ty: ParamType) -> (r: Option<ParamValue>)
    ensures
        match r {
            Some(v) => coerce_spec(raw@, ty) == Some(v@),
            None => coerce_spec(raw@, ty) is None,
        },
{
    match ty {
        ParamType::Text => Some(ParamValue::Text(raw.to_owned())),
        _ => {
            let signed = ty.signed();
            let parsed = parse_decimal(raw, signed, ty.upper_bound());
            proof {
                assert(raw@.skip(0) =~= raw@);
            }
            match parsed {
                None => None,
                Some((negative, m)) => {
                    if !signed {
                        Some(ParamValue::Unsigned(m))
                    } else if !negative {
                        Some(ParamValue::Signed(m as i64))
                    } else if m == 0 {
                        Some(ParamValue::Signed(0))
                    } else {
                        Some(ParamValue::Signed(-((m - 1) as i64) - 1))
                    }
                },
            }
        },
    }
}

} // verus!

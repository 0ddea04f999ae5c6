//! Cells, the tagged unit of data and code, and the reading of numeric tokens.
use vstd::prelude::*;

use crate::name::{WordName, NAME_SIZE};
use vstd::arithmetic::power2::{
    lemma2_to64, lemma2_to64_rest, lemma_pow2_adds, lemma_pow2_pos, lemma_pow2_strictly_increases, lemma_pow2_unfold, pow2,
};

verus! {

/// The integer type of the interpreter.
pub type KrkInt = i64;

/// A tagged value; a compiled definition is a sequence of them.
#[derive(Clone, Copy, Debug, PartialEq, Eq, Structural)]
pub enum Cell {
    Empty,
    Integer(KrkInt),
    /// A 64-bit IEEE-754 float, held as its bit pattern.
    Float(u64),
    /// (index of a word, offset)
    WordRef(usize, usize),
    /// (index of an allocation, offset)
    AllocRef(usize, usize),
}

/// What a numeric token reads as.
#[derive(Clone, Copy, Debug, PartialEq, Eq, Structural)]
pub enum Literal {
    /// A token that parses as a 64-bit signed integer, with its value.
    Integer(KrkInt),
    /// A token in the grammar of 64-bit floats; its value is computed by the host.
    Float,
}

pub open spec fn is_digit(b: u8) -> bool {
    48 <= b <= 57
}

pub open spec fn is_sign(b: u8) -> bool {
    b == 43 || b == 45
}

pub open spec fn all_digits(s: Seq<u8>) -> bool {
    forall|i: int| 0 <= i < s.len() ==> is_digit(#[trigger] s[i])
}

/// The value of a string of decimal digits.
pub open spec fn digits_value(s: Seq<u8>) -> int
    decreases s.len(),
{
    if s.len() == 0 {
        0
    } else {
        digits_value(s.drop_last()) * 10 + (s.last() - 48)
    }
}

/// The token without a leading sign.
pub open spec fn unsigned_part(s: Seq<u8>) -> Seq<u8> {
    if s.len() > 0 && is_sign(s[0]) {
        s.subrange(1, s.len() as int)
    } else {
        s
    }
}

/// A sign, if any, followed by one or more decimal digits.
pub open spec fn integer_shaped(s: Seq<u8>) -> bool {
    unsigned_part(s).len() > 0 && all_digits(unsigned_part(s))
}

/// The value that an integer-shaped token denotes.
pub open spec fn integer_value(s: Seq<u8>) -> int {
    if s.len() > 0 && s[0] == 45 {
        -digits_value(unsigned_part(s))
    } else {
        digits_value(unsigned_part(s))
    }
}

/// The token parses as a 64-bit signed integer.
pub open spec fn parses_as_integer(s: Seq<u8>) -> bool {
    integer_shaped(s) && i64::MIN <= integer_value(s) <= i64::MAX
}

/// How many decimal digits `s` starts with.
pub open spec fn leading_digits(s: Seq<u8>) -> nat
    decreases s.len(),
{
    if s.len() > 0 && is_digit(s[0]) {
        1 + leading_digits(s.drop_first())
    } else {
        0
    }
}

/// ASCII lower case of one byte.
pub open spec fn lower(b: u8) -> u8 {
    if 65 <= b <= 90 {
        (b + 32) as u8
    } else {
        b
    }
}

pub open spec fn lowered(s: Seq<u8>) -> Seq<u8> {
    s.map_values(|b: u8| lower(b))
}

/// `inf`, `infinity` or `nan`, in any case.
pub open spec fn is_special_float(s: Seq<u8>) -> bool {
    lowered(s) == seq![105u8, 110, 102] || lowered(s) == seq![105u8, 110, 102, 105, 110, 105, 116, 121]
        || lowered(s) == seq![110u8, 97, 110]
}

/// An exponent after its `e`: a sign, if any, and one or more digits.
pub open spec fn exponent_ok(s: Seq<u8>) -> bool {
    unsigned_part(s).len() > 0 && all_digits(unsigned_part(s))
}

/// What follows the mantissa: nothing, or `e`/`E` and an exponent.
pub open spec fn tail_ok(s: Seq<u8>) -> bool {
    s.len() == 0 || ((s[0] == 101 || s[0] == 69) && exponent_ok(s.drop_first()))
}

/// Digits, an optional `.` and digits, with a digit somewhere, then an
/// optional exponent.
pub open spec fn decimal_shaped(s: Seq<u8>) -> bool {
    let a = leading_digits(s);
    let rest = s.subrange(a as int, s.len() as int);
    if rest.len() > 0 && rest[0] == 46 {
        let frac = rest.drop_first();
        let b = leading_digits(frac);
        a + b > 0 && tail_ok(frac.subrange(b as int, frac.len() as int))
    } else {
        a > 0 && tail_ok(rest)
    }
}

/// The grammar of 64-bit floats: a sign, if any, then a decimal or
/// `inf`, `infinity`, `nan` in any case.
pub open spec fn float_shaped(s: Seq<u8>) -> bool {
    is_special_float(unsigned_part(s)) || decimal_shaped(unsigned_part(s))
}

/// How a token reads: an integer first, else a float, else not a number.
pub open spec fn literal_of(s: Seq<u8>) -> Option<Literal> {
    if parses_as_integer(s) {
        Some(Literal::Integer(integer_value(s) as i64))
    } else if float_shaped(s) {
        Some(Literal::Float)
    } else {
        None
    }
}


proof fn lemma_digits_nonneg(t: Seq<u8>)
    requires
        all_digits(t),
    ensures
        digits_value(t) >= 0,
    decreases t.len(),
{
    if t.len() > 0 {
        lemma_digits_nonneg(t.drop_last());
    }
}

proof fn lemma_digits_prefix(t: Seq<u8>, k: int)
    requires
        all_digits(t),
        0 <= k <= t.len(),
    ensures
        digits_value(t.subrange(0, k)) <= digits_value(t),
    decreases t.len(),
{
    if k < t.len() {
        lemma_digits_prefix(t.drop_last(), k);
        assert(t.drop_last().subrange(0, k) =~= t.subrange(0, k));
        lemma_digits_nonneg(t.drop_last());
    } else {
        assert(t.subrange(0, k) =~= t);
    }
}

proof fn lemma_leading_digits_bound(t: Seq<u8>)
    ensures
        leading_digits(t) <= t.len(),
        leading_digits(t) == t.len() <==> all_digits(t),
        forall|i: int| 0 <= i < leading_digits(t) ==> is_digit(#[trigger] t[i]),
    decreases t.len(),
{
    if t.len() > 0 {
        lemma_leading_digits_bound(t.drop_first());
        if is_digit(t[0]) {
            assert forall|i: int| 0 <= i < leading_digits(t) implies is_digit(#[trigger] t[i]) by {
                if i > 0 {
                    assert(t[i] == t.drop_first()[i - 1]);
                }
            }
            if all_digits(t) {
                assert forall|i: int| 0 <= i < t.drop_first().len() implies is_digit(
                    #[trigger] t.drop_first()[i],
                ) by {
                    assert(t.drop_first()[i] == t[i + 1]);
                }
            }
            if leading_digits(t) == t.len() {
                assert forall|i: int| 0 <= i < t.len() implies is_digit(#[trigger] t[i]) by {
                    if i > 0 {
                        assert(t[i] == t.drop_first()[i - 1]);
                    }
                }
            }
        }
    }
}

/// The end of the run of decimal digits in `name[from..to]`.
fn scan_digits(name: &WordName, from: usize, to: usize) -> (r: usize)
    requires
        from <= to <= NAME_SIZE,
    ensures
        from <= r <= to,
        r - from == leading_digits(name@.subrange(from as int, to as int)),
{
    let mut i = from;
    while i < to && 48 <= name[i] && name[i] <= 57
        invariant
            from <= i <= to <= NAME_SIZE,
            leading_digits(name@.subrange(from as int, to as int)) == (i - from) + leading_digits(
                name@.subrange(i as int, to as int),
            ),
        decreases to - i,
    {
        assert(name@.subrange(i as int, to as int).drop_first() =~= name@.subrange(
            i as int + 1,
            to as int,
        ));
        i += 1;
    }
    i
}

fn lower_byte(b: u8) -> (r: u8)
    ensures
        r == lower(b),
{
    if 65 <= b && b <= 90 {
        b + 32
    } else {
        b
    }
}

/// `name[from..to]` is a sign, if any, and one or more digits.
fn scan_exponent(name: &WordName, from: usize, to: usize) -> (r: bool)
    requires
        from <= to <= NAME_SIZE,
    ensures
        r == exponent_ok(name@.subrange(from as int, to as int)),
{
    let ghost t = name@.subrange(from as int, to as int);
    let start = if from < to && (name[from] == 43 || name[from] == 45) {
        from + 1
    } else {
        from
    };
    assert(unsigned_part(t) =~= name@.subrange(start as int, to as int));
    let end = scan_digits(name, start, to);
    proof {
        lemma_leading_digits_bound(name@.subrange(start as int, to as int));
    }
    start < to && end == to
}

/// `name[from..to]` is empty, or `e`/`E` and an exponent.
fn scan_tail(name: &WordName, from: usize, to: usize) -> (r: bool)
    requires
        from <= to <= NAME_SIZE,
    ensures
        r == tail_ok(name@.subrange(from as int, to as int)),
{
    if from == to {
        return true;
    }
    assert(name@.subrange(from as int, to as int).drop_first() =~= name@.subrange(
        from as int + 1,
        to as int,
    ));
    (name[from] == 101 || name[from] == 69) && scan_exponent(name, from + 1, to)
}

/// `name[from..to]` spells `word` in any case.
fn spells(name: &WordName, from: usize, to: usize, word: &[u8]) -> (r: bool)
    requires
        from <= to <= NAME_SIZE,
    ensures
        r == (lowered(name@.subrange(from as int, to as int)) == word@),
{
    let ghost t = name@.subrange(from as int, to as int);
    if to - from != word.len() {
        assert(lowered(t).len() != word@.len());
        return false;
    }
    let mut i: usize = 0;
    while i < word.len()
        invariant
            from <= to <= NAME_SIZE,
            to - from == word@.len(),
            t == name@.subrange(from as int, to as int),
            forall|j: int| 0 <= j < i ==> lowered(t)[j] == word@[j],
        decreases word.len() - i,
    {
        if lower_byte(name[from + i]) != word[i] {
            assert(lowered(t)[i as int] != word@[i as int]);
            return false;
        }
        i += 1;
    }
    assert(lowered(t) =~= word@);
    true
}

/// The bytes `name[..len]` are in the grammar of 64-bit floats.
fn is_float_shaped(name: &WordName, len: usize) -> (r: bool)
    requires
        len <= NAME_SIZE,
    ensures
        r == float_shaped(name@.subrange(0, len as int)),
{
    let ghost s = name@.subrange(0, len as int);
    let start: usize = if len > 0 && (name[0] == 43 || name[0] == 45) {
        1
    } else {
        0
    };
    let ghost u = name@.subrange(start as int, len as int);
    assert(unsigned_part(s) =~= u);
    let inf: [u8; 3] = [105u8, 110, 102];
    let infinity: [u8; 8] = [105u8, 110, 102, 105, 110, 105, 116, 121];
    let nan: [u8; 3] = [110u8, 97, 110];
    assert(inf@ =~= seq![105u8, 110, 102]);
    assert(infinity@ =~= seq![105u8, 110, 102, 105, 110, 105, 116, 121]);
    assert(nan@ =~= seq![110u8, 97, 110]);
    if spells(name, start, len, inf.as_slice()) || spells(name, start, len, infinity.as_slice())
        || spells(name, start, len, nan.as_slice()) {
        return true;
    }
    let a_end = scan_digits(name, start, len);
    assert(u.subrange((a_end - start) as int, u.len() as int) =~= name@.subrange(
        a_end as int,
        len as int,
    ));
    if a_end < len && name[a_end] == 46 {
        let b_end = scan_digits(name, a_end + 1, len);
        let ghost rest = name@.subrange(a_end as int, len as int);
        assert(rest.drop_first() =~= name@.subrange(a_end + 1, len as int));
        assert(rest.drop_first().subrange((b_end - a_end - 1) as int, rest.drop_first().len() as int)
            =~= name@.subrange(b_end as int, len as int));
        (a_end - start) + (b_end - a_end - 1) > 0 && scan_tail(name, b_end, len)
    } else {
        a_end > start && scan_tail(name, a_end, len)
    }
}

/// The bytes `name[..len]` read as a 64-bit signed integer, if they do.
fn parse_integer(name: &WordName, len: usize) -> (r: Option<KrkInt>)
    requires
        len <= NAME_SIZE,
    ensures
        r == (if parses_as_integer(name@.subrange(0, len as int)) {
            Some(integer_value(name@.subrange(0, len as int)) as i64)
        } else {
            None
        }),
{
    let ghost s = name@.subrange(0, len as int);
    if len == 0 {
        return None;
    }
    let negative = name[0] == 45;
    let start: usize = if name[0] == 43 || name[0] == 45 {
        1
    } else {
        0
    };
    let ghost u = name@.subrange(start as int, len as int);
    assert(unsigned_part(s) =~= u);
    if start >= len {
        return None;
    }
    let limit: u128 = if negative {
        9223372036854775808
    } else {
        9223372036854775807
    };
    let mut acc: u128 = 0;
    let mut i = start;
    while i < len
        invariant
            start <= i <= len <= NAME_SIZE,
            u == name@.subrange(start as int, len as int),
            s == name@.subrange(0, len as int),
            unsigned_part(s) == u,
            negative == (s[0] == 45),
            acc == digits_value(name@.subrange(start as int, i as int)),
            all_digits(name@.subrange(start as int, i as int)),
            acc <= limit,
            limit == (if negative { 9223372036854775808u128 } else { 9223372036854775807u128 }),
        decreases len - i,
    {
        let b = name[i];
        if !(48 <= b && b <= 57) {
            assert(u[i - start] == b);
            assert(!all_digits(u));
            return None;
        }
        assert(name@.subrange(start as int, i + 1).drop_last() =~= name@.subrange(
            start as int,
            i as int,
        ));
        acc = acc * 10 + (b - 48) as u128;
        assert(name@.subrange(start as int, i + 1).last() == b);
        assert(acc == digits_value(name@.subrange(start as int, i + 1)));
        if acc > limit {
            proof {
                if all_digits(u) {
                    assert(u.subrange(0, i + 1 - start) =~= name@.subrange(start as int, i + 1));
                    lemma_digits_prefix(u, i + 1 - start);
                    assert(digits_value(u) > limit);
                }
            }
            return None;
        }
        assert(all_digits(name@.subrange(start as int, i + 1))) by {
            assert forall|j: int| 0 <= j < i + 1 - start implies is_digit(
                #[trigger] name@.subrange(start as int, i + 1)[j],
            ) by {
                if j < i - start {
                    assert(name@.subrange(start as int, i + 1)[j] == name@.subrange(
                        start as int,
                        i as int,
                    )[j]);
                }
            }
        }
        i += 1;
    }
    assert(name@.subrange(start as int, len as int) =~= u);
    if negative {
        Some((0i128 - acc as i128) as i64)
    } else {
        Some(acc as i64)
    }
}

impl Cell {
    /// Reads a token as a number: a 64-bit signed integer first, else a
    /// 64-bit float, else not a number.
    pub fn number(word_name: WordName, name_len: u8) -> (r: Option<Literal>)
        requires
            name_len <= NAME_SIZE,
        ensures
            r == literal_of(word_name@.subrange(0, name_len as int)),
            parses_as_integer(word_name@.subrange(0, name_len as int)) ==> r is Some && r->0 is Integer,
            !parses_as_integer(word_name@.subrange(0, name_len as int)) && float_shaped(
                word_name@.subrange(0, name_len as int),
            ) ==> r == Some(Literal::Float),
            !parses_as_integer(word_name@.subrange(0, name_len as int)) && !float_shaped(
                word_name@.subrange(0, name_len as int),
            ) ==> r is None,
    {
        if let Some(n) = parse_integer(&word_name, name_len as usize) {
            Some(Literal::Integer(n))
        } else if is_float_shaped(&word_name, name_len as usize) {
            Some(Literal::Float)
        } else {
            None
        }
    }

    /// The cell is an integer or a float.
    pub fn is_number(&self) -> (r: bool)
        ensures
            r == (self is Integer || self is Float),
    {
        match self {
            Cell::Integer(_) | Cell::Float(_) => true,
            _ => false,
        }
    }

    /// The integer reading of a cell: an integer's value, a float's value
    /// converted as `as` converts it, a reference's index, zero for an
    /// empty cell.
    pub fn as_integer(&self) -> (r: KrkInt)
        ensures
            r == integer_reading(*self),
    {
        match self {
            Cell::Integer(n) => *n,
            Cell::Float(bits) => float_bits_to_int(*bits),
            Cell::WordRef(r, _) | Cell::AllocRef(r, _) => *r as KrkInt,
            Cell::Empty => 0,
        }
    }
}

/// The integer reading of a cell.
pub open spec fn integer_reading(c: Cell) -> i64 {
    match c {
        Cell::Integer(n) => n,
        Cell::Float(bits) => float_to_int(bits),
        Cell::WordRef(i, _) => i as i64,
        Cell::AllocRef(i, _) => i as i64,
        Cell::Empty => 0,
    }
}

/// What `as i64` gives for the 64-bit float with bit pattern `bits`: the
/// value truncated toward zero, saturated at the bounds of `i64`, and zero
/// for a NaN. The pattern is a sign bit, eleven exponent bits and 52
/// fraction bits; a normal value is `(2^52 + fraction) * 2^(exponent - 1075)`.
pub open spec fn float_to_int(bits: u64) -> i64 {
    let b = bits as int;
    let negative = b >= pow2(63) as int;
    let exponent = (b / pow2(52) as int) % 2048;
    let fraction = b % pow2(52) as int;
    if exponent == 2047 && fraction != 0 {
        0
    } else if exponent >= 1086 {
        if negative {
            i64::MIN
        } else {
            i64::MAX
        }
    } else if exponent < 1023 {
        0
    } else {
        let m = fraction + pow2(52) as int;
        let magnitude = if exponent >= 1075 {
            m * pow2((exponent - 1075) as nat) as int
        } else {
            m / pow2((1075 - exponent) as nat) as int
        };
        if negative {
            (-magnitude) as i64
        } else {
            magnitude as i64
        }
    }
}

/// `2^k`, for `k` at most 62.
fn power_of_two(k: u64) -> (r: u64)
    requires
        k <= 62,
    ensures
        r == pow2(k as nat),
{
    let mut p: u64 = 1;
    let mut i: u64 = 0;
    proof {
        lemma2_to64();
        lemma2_to64_rest();
    }
    while i < k
        invariant
            i <= k <= 62,
            p == pow2(i as nat),
        decreases k - i,
    {
        proof {
            lemma2_to64_rest();
            lemma_pow2_unfold((i + 1) as nat);
            lemma_pow2_strictly_increases((i + 1) as nat, 63);
        }
        p = p * 2;
        i += 1;
    }
    p
}

/// Converts a float, given by its bit pattern, to an integer as `as i64` does.
pub fn float_bits_to_int(bits: u64) -> (r: i64)
    ensures
        r == float_to_int(bits),
{
    proof {
        lemma2_to64();
        lemma2_to64_rest();
    }
    let negative = bits >= 9223372036854775808;
    let exponent = (bits / 4503599627370496) % 2048;
    let fraction = bits % 4503599627370496;
    if exponent == 2047 && fraction != 0 {
        0
    } else if exponent >= 1086 {
        if negative {
            i64::MIN
        } else {
            i64::MAX
        }
    } else if exponent < 1023 {
        0
    } else {
        let m = fraction + 4503599627370496;
        let magnitude: u64 = if exponent >= 1075 {
            let p = power_of_two(exponent - 1075);
            proof {
                lemma_pow2_strictly_increases((exponent - 1075) as nat, 11);
                lemma_pow2_adds(53, 10);
                lemma_pow2_pos((exponent - 1075) as nat);
                assert(m < pow2(53));
                assert(p <= pow2(10));
                assert(m * p < pow2(53) * pow2(10)) by (nonlinear_arith)
                    requires
                        m < pow2(53),
                        p <= pow2(10),
                        p > 0,
                ;
            }
            m * p
        } else {
            let p = power_of_two(1075 - exponent);
            proof {
                lemma_pow2_pos((1075 - exponent) as nat);
            }
            assert(m / p <= m) by (nonlinear_arith)
                requires
                    p > 0,
            ;
            m / p
        };
        assert(magnitude < 9223372036854775808);
        if negative {
            -(magnitude as i64)
        } else {
            magnitude as i64
        }
    }
}

} // verus!

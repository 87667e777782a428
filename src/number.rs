//! Decimal integers of a given width, as a scalar line spells them.
use vstd::prelude::*;
use vstd::string::*;

verus! {

/// The width of an integer scalar.
#[derive(Clone, Copy, Debug, PartialEq, Eq, Structural)]
pub enum IntWidth {
    W8,
    W16,
    W32,
    W64,
}

impl IntWidth {
    /// The largest unsigned integer of this width.
    pub open spec fn unsigned_max(self) -> int {
        match self {
            IntWidth::W8 => 0xff,
            IntWidth::W16 => 0xffff,
            IntWidth::W32 => 0xffff_ffff,
            IntWidth::W64 => 0xffff_ffff_ffff_ffff,
        }
    }

    /// The largest signed integer of this width.
    pub open spec fn signed_max(self) -> int {
        match self {
            IntWidth::W8 => 0x7f,
            IntWidth::W16 => 0x7fff,
            IntWidth::W32 => 0x7fff_ffff,
            IntWidth::W64 => 0x7fff_ffff_ffff_ffff,
        }
    }

    /// The smallest signed integer of this width.
    pub open spec fn signed_least(self) -> int {
        -self.signed_max() - 1
    }

    fn unsigned_limit(self) -> (r: u64)
        ensures
            r == self.unsigned_max(),
    {
        match self {
            IntWidth::W8 => 0xff,
            IntWidth::W16 => 0xffff,
            IntWidth::W32 => 0xffff_ffff,
            IntWidth::W64 => 0xffff_ffff_ffff_ffff,
        }
    }

    fn signed_limit(self) -> (r: u64)
        ensures
            r == self.signed_max(),
            0 < r <= 0x7fff_ffff_ffff_ffff,
    {
        match self {
            IntWidth::W8 => 0x7f,
            IntWidth::W16 => 0x7fff,
            IntWidth::W32 => 0x7fff_ffff,
            IntWidth::W64 => 0x7fff_ffff_ffff_ffff,
        }
    }
}

pub open spec fn is_digit(c: char) -> bool {
    '0' <= c <= '9'
}

pub open spec fn digit_value(c: char) -> int {
    c as int - '0' as int
}

/// One or more decimal digits.
pub open spec fn all_digits(d: Seq<char>) -> bool {
    d.len() > 0 && forall|i: int| 0 <= i < d.len() ==> is_digit(#[trigger] d[i])
}

/// The number that a run of decimal digits denotes.
pub open spec fn digits_value(d: Seq<char>) -> int
    decreases d.len(),
{
    if d.len() == 0 {
        0
    } else {
        digits_value(d.drop_last()) * 10 + digit_value(d.last())
    }
}

/// The integer that a line spells in base ten: digits with an optional `+`
/// before them, or, where `signed`, a `-`.
pub open spec fn decimal_value(line: Seq<char>, signed: bool) -> Option<int> {
    if line.len() > 0 && line[0] == '+' && all_digits(line.drop_first()) {
        Some(digits_value(line.drop_first()))
    } else if signed && line.len() > 0 && line[0] == '-' && all_digits(line.drop_first()) {
        Some(-digits_value(line.drop_first()))
    } else if all_digits(line) {
        Some(digits_value(line))
    } else {
        None
    }
}

/// The line spells an unsigned integer that fits the width.
pub open spec fn unsigned_value(line: Seq<char>, width: IntWidth) -> Option<int> {
    match decimal_value(line, false) {
        Some(n) => if n <= width.unsigned_max() {
            Some(n)
        } else {
            None
        },
        None => None,
    }
}

/// The line spells a signed integer that fits the width.
pub open spec fn signed_value(line: Seq<char>, width: IntWidth) -> Option<int> {
    match decimal_value(line, true) {
        Some(n) => if width.signed_least() <= n <= width.signed_max() {
            Some(n)
        } else {
            None
        },
        None => None,
    }
}

proof fn lemma_digits_nonneg(d: Seq<char>)
    requires
        forall|i: int| 0 <= i < d.len() ==> is_digit(#[trigger] d[i]),
    ensures
        digits_value(d) >= 0,
    decreases d.len(),
{
    if d.len() > 0 {
        lemma_digits_nonneg(d.drop_last());
    }
}

/// A prefix of a run of digits denotes no more than the whole run.
proof fn lemma_digits_prefix(d: Seq<char>, k: int)
    requires
        forall|i: int| 0 <= i < d.len() ==> is_digit(#[trigger] d[i]),
        0 <= k <= d.len(),
    ensures
        digits_value(d.subrange(0, k)) <= digits_value(d),
    decreases d.len(),
{
    if k < d.len() {
        let e = d.drop_last();
        lemma_digits_prefix(e, k);
        assert(e.subrange(0, k) =~= d.subrange(0, k));
        lemma_digits_nonneg(e);
    } else {
        assert(d.subrange(0, k) =~= d);
    }
}

/// The characters of `line` from `start` on.
pub open spec fn tail(line: Seq<char>, start: int) -> Seq<char> {
    line.subrange(start, line.len() as int)
}

/// Reads the digits of `line` from `start` to its end, as long as what they
/// denote stays at most `limit`.
fn read_magnitude(line: &str, start: usize, limit: u64) -> (r: Option<u64>)
    requires
        start <= line@.len(),
    ensures
        r is Some <==> all_digits(tail(line@, start as int)) && digits_value(
            tail(line@, start as int),
        ) <= limit,
        r matches Some(v) ==> v == digits_value(tail(line@, start as int)),
{
    let n = line.unicode_len();
    let ghost d = tail(line@, start as int);
    if start == n {
        return None;
    }
    let mut acc: u64 = 0;
    let mut i: usize = start;
    while i < n
        invariant
            start <= i <= n,
            n == line@.len(),
            d == line@.subrange(start as int, n as int),
            forall|j: int| start <= j < i ==> is_digit(#[trigger] line@[j]),
            acc == digits_value(line@.subrange(start as int, i as int)),
            acc <= limit,
        decreases n - i,
    {
        let c = line.get_char(i);
        if !('0' <= c && c <= '9') {
            assert(!is_digit(d[i - start]));
            return None;
        }
        let digit = (c as u32 - '0' as u32) as u64;
        assert(line@.subrange(start as int, i + 1).drop_last() =~= line@.subrange(
            start as int,
            i as int,
        ));
        assert(d.subrange(0, i + 1 - start) =~= line@.subrange(start as int, i + 1));
        if digit > limit || acc > (limit - digit) / 10 {
            assert(acc * 10 + digit > limit) by (nonlinear_arith)
                requires
                    digit > limit || acc > (limit - digit) / 10,
                    acc >= 0,
            {
            }
            proof {
                if all_digits(d) {
                    lemma_digits_prefix(d, i + 1 - start);
                }
            }
            return None;
        }
        assert(acc * 10 + digit <= limit) by (nonlinear_arith)
            requires
                acc <= (limit - digit) / 10,
                digit <= limit,
        {
        }
        acc = acc * 10 + digit;
        i = i + 1;
    }
    assert(line@.subrange(start as int, i as int) =~= d);
    Some(acc)
}

/// Reads a line as an unsigned integer of the given width.
pub fn parse_unsigned_line(line: &str, width: IntWidth) -> (r: Option<u64>)
    ensures
        r is Some <==> unsigned_value(line@, width) is Some,
        r matches Some(v) ==> unsigned_value(line@, width) == Some(v as int),
{
    let n = line.unicode_len();
    let limit = width.unsigned_limit();
    if n > 0 && line.get_char(0) == '+' {
        assert(tail(line@, 1) =~= line@.drop_first());
        assert(!is_digit(line@[0]));
        read_magnitude(line, 1, limit)
    } else {
        assert(tail(line@, 0) =~= line@);
        read_magnitude(line, 0, limit)
    }
}

/// Reads a line as a signed integer of the given width.
pub fn parse_signed_line(line: &str, width: IntWidth) -> (r: Option<i64>)
    ensures
        r is Some <==> signed_value(line@, width) is Some,
        r matches Some(v) ==> signed_value(line@, width) == Some(v as int),
{
    let n = line.unicode_len();
    let limit = width.signed_limit();
    if n > 0 && line.get_char(0) == '+' {
        assert(tail(line@, 1) =~= line@.drop_first());
        assert(!is_digit(line@[0]));
        match read_magnitude(line, 1, limit) {
            Some(m) => Some(m as i64),
            None => None,
        }
    } else if n > 0 && line.get_char(0) == '-' {
        assert(tail(line@, 1) =~= line@.drop_first());
        assert(!is_digit(line@[0]));
        match read_magnitude(line, 1, limit + 1) {
            Some(m) => if m == limit + 1 {
                Some(-(limit as i64) - 1)
            } else {
                Some(-(m as i64))
            },
            None => None,
        }
    } else {
        assert(tail(line@, 0) =~= line@);
        match read_magnitude(line, 0, limit) {
            Some(m) => Some(m as i64),
            None => None,
        }
    }
}

} // verus!

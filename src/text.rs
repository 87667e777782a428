//! Text as sequences of characters: the line structure of a document,
//! comparing strings, and writing numbers in decimal.
use vstd::prelude::*;
use vstd::string::*;

verus! {

/// No character of `s` is a line break.
pub open spec fn newline_free(s: Seq<char>) -> bool {
    forall|i: int| 0 <= i < s.len() ==> s[i] != '\n'
}

/// Splits `s` into its first line, without the line break, and what follows
/// that line break. Without a line break the whole of `s` is the line.
pub open spec fn split_line(s: Seq<char>) -> (Seq<char>, Seq<char>)
    decreases s.len(),
{
    if s.len() == 0 {
        (Seq::empty(), Seq::empty())
    } else if s[0] == '\n' {
        (Seq::empty(), s.drop_first())
    } else {
        let (line, rest) = split_line(s.drop_first());
        (seq![s[0]] + line, rest)
    }
}

/// The next line is blank, or no input is left: the lookahead that ends a
/// record or a sequence.
pub open spec fn at_delimiter(s: Seq<char>) -> bool {
    s.len() == 0 || s[0] == '\n'
}

/// Consumes the next line, which must exist.
pub open spec fn next_line(s: Seq<char>) -> Result<(Seq<char>, Seq<char>), crate::error::Error> {
    if s.len() == 0 {
        Err(crate::error::Error::UnexpectedEnd)
    } else {
        Ok(split_line(s))
    }
}

/// Consumes a blank line; at the end of the input there is nothing to consume.
pub open spec fn skip_delimiter(s: Seq<char>) -> Result<Seq<char>, crate::error::Error> {
    if s.len() == 0 {
        Ok(s)
    } else if s[0] == '\n' {
        Ok(s.drop_first())
    } else {
        Err(crate::error::Error::DelimiterExpected)
    }
}

/// The line is wrapped in `%` markers.
pub open spec fn is_field_name(line: Seq<char>) -> bool {
    line.len() >= 2 && line[0] == '%' && line[line.len() - 1] == '%'
}

/// The key inside a field name line.
pub open spec fn field_key(line: Seq<char>) -> Seq<char> {
    line.subrange(1, line.len() - 1)
}

/// `split_line` is determined by the position of the first line break.
pub proof fn lemma_split_line(s: Seq<char>, n: int)
    requires
        0 <= n <= s.len(),
        newline_free(s.subrange(0, n)),
        n == s.len() || s[n] == '\n',
    ensures
        split_line(s) == (s.subrange(0, n), if n == s.len() {
            Seq::<char>::empty()
        } else {
            s.subrange(n + 1, s.len() as int)
        }),
    decreases n,
{
    if s.len() == 0 {
    } else if n == 0 {
        assert(s.drop_first() =~= s.subrange(1, s.len() as int));
        assert(s.subrange(0, 0) =~= Seq::<char>::empty());
    } else {
        let t = s.drop_first();
        assert(s.subrange(0, n)[0] == s[0]);
        assert(t.subrange(0, n - 1) =~= s.subrange(1, n));
        assert forall|i: int| 0 <= i < n - 1 implies #[trigger] t.subrange(0, n - 1)[i] != '\n' by {
            assert(s.subrange(0, n)[i + 1] == s[i + 1]);
        }
        lemma_split_line(t, n - 1);
        assert(seq![s[0]] + t.subrange(0, n - 1) =~= s.subrange(0, n));
        if n < s.len() {
            assert(t.subrange(n, t.len() as int) =~= s.subrange(n + 1, s.len() as int));
        }
    }
}

/// A line without line breaks, followed by a line break, splits off exactly.
pub proof fn lemma_split_line_append(line: Seq<char>, rest: Seq<char>)
    requires
        newline_free(line),
    ensures
        split_line(line + seq!['\n'] + rest) == (line, rest),
{
    let s = line + seq!['\n'] + rest;
    assert(s.subrange(0, line.len() as int) =~= line);
    assert(s.subrange(line.len() as int + 1, s.len() as int) =~= rest);
    lemma_split_line(s, line.len() as int);
}

/// Consuming a line of a non-empty input leaves less input, and the line
/// holds no line break.
pub proof fn lemma_split_line_shrinks(s: Seq<char>)
    requires
        s.len() > 0,
    ensures
        split_line(s).1.len() < s.len(),
        split_line(s).0.len() <= s.len(),
        newline_free(split_line(s).0),
    decreases s.len(),
{
    if s[0] != '\n' {
        let t = s.drop_first();
        if t.len() > 0 {
            lemma_split_line_shrinks(t);
        }
        let (line, rest) = split_line(t);
        assert(split_line(s).0 == seq![s[0]] + line);
        assert forall|i: int| 0 <= i < split_line(s).0.len() implies #[trigger] split_line(
            s,
        ).0[i] != '\n' by {
            if i > 0 {
                assert(split_line(s).0[i] == line[i - 1]);
            }
        }
    }
}

/// Compares two strings character by character.
pub fn same_text(a: &str, b: &str) -> (r: bool)
    ensures
        r == (a@ == b@),
{
    let n = a.unicode_len();
    if n != b.unicode_len() {
        return false;
    }
    let mut i: usize = 0;
    while i < n
        invariant
            n == a@.len() == b@.len(),
            0 <= i <= n,
            forall|j: int| 0 <= j < i ==> a@[j] == b@[j],
        decreases n - i,
    {
        if a.get_char(i) != b.get_char(i) {
            return false;
        }
        i = i + 1;
    }
    assert(a@ =~= b@);
    true
}

/// The decimal digits of `n`, most significant first, without leading zeros.
pub open spec fn decimal_text(n: nat) -> Seq<char>
    decreases n,
{
    if n < 10 {
        seq![digit_char(n)]
    } else {
        decimal_text(n / 10) + seq![digit_char(n % 10)]
    }
}

/// The character of a decimal digit.
pub open spec fn digit_char(d: nat) -> char {
    if d == 0 {
        '0'
    } else if d == 1 {
        '1'
    } else if d == 2 {
        '2'
    } else if d == 3 {
        '3'
    } else if d == 4 {
        '4'
    } else if d == 5 {
        '5'
    } else if d == 6 {
        '6'
    } else if d == 7 {
        '7'
    } else if d == 8 {
        '8'
    } else {
        '9'
    }
}

/// Writes `n` in decimal.
pub fn format_decimal(n: u64) -> (r: String)
    ensures
        r@ == decimal_text(n as nat),
    decreases n,
{
    if n < 10 {
        String::from_str(digit_text(n))
    } else {
        let mut s = format_decimal(n / 10);
        s.append(digit_text(n % 10));
        s
    }
}

fn digit_text(d: u64) -> (r: &'static str)
    requires
        d < 10,
    ensures
        r@ == seq![digit_char(d as nat)],
{
    proof {
        reveal_strlit("0");
        reveal_strlit("1");
        reveal_strlit("2");
        reveal_strlit("3");
        reveal_strlit("4");
        reveal_strlit("5");
        reveal_strlit("6");
        reveal_strlit("7");
        reveal_strlit("8");
        reveal_strlit("9");
    }
    let r = if d == 0 {
        "0"
    } else if d == 1 {
        "1"
    } else if d == 2 {
        "2"
    } else if d == 3 {
        "3"
    } else if d == 4 {
        "4"
    } else if d == 5 {
        "5"
    } else if d == 6 {
        "6"
    } else if d == 7 {
        "7"
    } else if d == 8 {
        "8"
    } else {
        "9"
    };
    assert(r@ =~= seq![digit_char(d as nat)]);
    r
}

} // verus!

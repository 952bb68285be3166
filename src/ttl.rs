use vstd::prelude::*;

verus! {

/// The record TTL used when none is given or the given text is not a number.
pub const DEFAULT_TTL: usize = 60;

/// Whether `c` is an ASCII decimal digit.
pub open spec fn is_digit(c: char) -> bool {
    '0' <= c && c <= '9'
}

/// The value of the decimal digit `c`.
pub open spec fn digit_value(c: char) -> nat {
    (c as u32 - '0' as u32) as nat
}

/// Whether every character of `s` is a decimal digit.
pub open spec fn all_digits(s: Seq<char>) -> bool {
    forall|i: int| 0 <= i < s.len() ==> is_digit(#[trigger] s[i])
}

/// The value of the decimal numeral `s`, most significant digit first.
pub open spec fn decimal_value(s: Seq<char>) -> nat
    decreases s.len(),
{
    if s.len() == 0 {
        0
    } else {
        decimal_value(s.drop_last()) * 10 + digit_value(s.last())
    }
}

/// What is left of `s` once an optional leading `+` is taken off.
pub open spec fn unsigned_part(s: Seq<char>) -> Seq<char> {
    if s.len() > 0 && s[0] == '+' {
        s.drop_first()
    } else {
        s
    }
}

/// The unsigned integer that `s` denotes, if any: an optional `+`, then one or
/// more decimal digits whose value fits in a `usize`.
pub open spec fn parsed_usize(s: Seq<char>) -> Option<usize> {
    let d = unsigned_part(s);
    if d.len() > 0 && all_digits(d) && decimal_value(d) <= usize::MAX {
        Some(decimal_value(d) as usize)
    } else {
        None
    }
}

/// The characters `'0'` to `'9'`, in order.
pub open spec fn digit_chars() -> Seq<char> {
    seq!['0', '1', '2', '3', '4', '5', '6', '7', '8', '9']
}

/// The shortest decimal numeral of `n`.
pub open spec fn decimal_text(n: nat) -> Seq<char>
    decreases n,
{
    if n < 10 {
        seq![digit_chars()[n as int]]
    } else {
        decimal_text(n / 10).push(digit_chars()[(n % 10) as int])
    }
}

/// The TTL that a configured TTL text yields: its value where it is a number,
/// the default where it is absent or not a number.
pub open spec fn effective_ttl(raw: Option<Seq<char>>) -> usize {
    match raw {
        Some(s) => match parsed_usize(s) {
            Some(v) => v,
            None => DEFAULT_TTL,
        },
        None => DEFAULT_TTL,
    }
}

/// Whether the TTL text `raw` falls back to the default for want of a number
/// (an absent TTL takes the default without complaint).
pub open spec fn ttl_rejected(raw: Option<Seq<char>>) -> bool {
    match raw {
        Some(s) => parsed_usize(s) is None,
        None => false,
    }
}

fn digit_of(c: char) -> (r: usize)
    requires
        is_digit(c),
    ensures
        r as nat == digit_value(c),
        r < 10,
{
    (c as u32 - '0' as u32) as usize
}

proof fn lemma_overflow_persists(s: Seq<char>)
    requires
        s.len() > 0,
        decimal_value(s.drop_last()) > usize::MAX,
    ensures
        decimal_value(s) > usize::MAX,
{
}

/// Reads `s` as an unsigned decimal integer: an optional `+`, then at least one
/// digit, with a value that fits in a `usize`; `None` otherwise.
pub fn parse_usize(s: &str) -> (r: Option<usize>)
    ensures
        r == parsed_usize(s@),
{
    let n = s.unicode_len();
    let mut start: usize = 0;
    if n > 0 && s.get_char(0) == '+' {
        start = 1;
    }
    let ghost d = unsigned_part(s@);
    assert(d == s@.subrange(start as int, n as int));
    if start == n {
        return None;
    }
    let mut i: usize = start;
    let mut acc: usize = 0;
    let mut overflow = false;
    while i < n
        invariant
            n == s@.len(),
            start <= i <= n,
            d == s@.subrange(start as int, n as int),
            d == unsigned_part(s@),
            all_digits(s@.subrange(start as int, i as int)),
            !overflow ==> acc as nat == decimal_value(s@.subrange(start as int, i as int)),
            overflow ==> decimal_value(s@.subrange(start as int, i as int)) > usize::MAX,
        decreases n - i,
    {
        let c = s.get_char(i);
        if !('0' <= c && c <= '9') {
            assert(d[i - start] == c);
            assert(!is_digit(d[i - start]));
            return None;
        }
        let dv = digit_of(c);
        let ghost prev = s@.subrange(start as int, i as int);
        let ghost next = s@.subrange(start as int, i + 1);
        assert(next.drop_last() == prev);
        assert(next.last() == c);
        if !overflow {
            if acc > (usize::MAX - dv) / 10 {
                assert(acc * 10 + dv > usize::MAX) by (nonlinear_arith)
                    requires
                        acc > (usize::MAX - dv) / 10,
                        dv < 10,
                ;
                overflow = true;
            } else {
                assert(acc * 10 + dv <= usize::MAX) by (nonlinear_arith)
                    requires
                        acc <= (usize::MAX - dv) / 10,
                        dv < 10,
                ;
                acc = acc * 10 + dv;
            }
        } else {
            proof {
                lemma_overflow_persists(next);
            }
        }
        i = i + 1;
    }
    assert(s@.subrange(start as int, n as int) == d);
    if overflow {
        None
    } else {
        Some(acc)
    }
}

/// The TTL to use for the configured TTL text `raw`, and whether a warning is
/// due because the text was not a number.
pub fn resolve_ttl(raw: Option<&str>) -> (r: (usize, bool))
    ensures
        r.0 == effective_ttl(match raw { Some(s) => Some(s@), None => None }),
        r.1 == ttl_rejected(match raw { Some(s) => Some(s@), None => None }),
{
    match raw {
        Some(s) => match parse_usize(s) {
            Some(v) => (v, false),
            None => (DEFAULT_TTL, true),
        },
        None => (DEFAULT_TTL, false),
    }
}

fn digit_text(d: usize) -> (r: &'static str)
    requires
        d < 10,
    ensures
        r@ == seq![digit_chars()[d as int]],
{
    proof {
        reveal_strlit("0123456789");
    }
    "0123456789".substring_char(d, d + 1)
}

/// The shortest decimal numeral of `n`, as the record lines carry a TTL.
pub fn decimal_string(n: usize) -> (r: String)
    ensures
        r@ == decimal_text(n as nat),
    decreases n,
{
    if n < 10 {
        String::from_str(digit_text(n))
    } else {
        let mut s = decimal_string(n / 10);
        s.append(digit_text(n % 10));
        s
    }
}

proof fn lemma_digit_char(d: nat)
    requires
        d < 10,
    ensures
        is_digit(digit_chars()[d as int]),
        digit_value(digit_chars()[d as int]) == d,
        digit_chars()[d as int] != '+',
{
    assert(digit_chars()[0] == '0');
    assert(digit_chars()[1] == '1');
    assert(digit_chars()[2] == '2');
    assert(digit_chars()[3] == '3');
    assert(digit_chars()[4] == '4');
    assert(digit_chars()[5] == '5');
    assert(digit_chars()[6] == '6');
    assert(digit_chars()[7] == '7');
    assert(digit_chars()[8] == '8');
    assert(digit_chars()[9] == '9');
}

proof fn lemma_decimal_text_digits(n: nat)
    ensures
        decimal_text(n).len() > 0,
        decimal_text(n)[0] != '+',
        all_digits(decimal_text(n)),
        decimal_value(decimal_text(n)) == n,
    decreases n,
{
    if n < 10 {
        lemma_digit_char(n);
        let t = decimal_text(n);
        assert(t.drop_last().len() == 0);
        assert(decimal_value(t.drop_last()) == 0);
        assert(decimal_value(t) == decimal_value(t.drop_last()) * 10 + digit_value(t.last()));
    } else {
        lemma_decimal_text_digits(n / 10);
        lemma_digit_char(n % 10);
        let t = decimal_text(n);
        assert(t.drop_last() == decimal_text(n / 10));
        assert(forall|i: int| 0 <= i < t.len() - 1 ==> t[i] == decimal_text(n / 10)[i]);
        assert(decimal_value(t) == decimal_value(t.drop_last()) * 10 + digit_value(t.last()));
        assert(n == (n / 10) * 10 + n % 10);
    }
}

/// Printing a TTL and reading it back gives the same TTL.
pub proof fn lemma_ttl_round_trip(n: usize)
    ensures
        parsed_usize(decimal_text(n as nat)) == Some(n),
        effective_ttl(Some(decimal_text(n as nat))) == n,
{
    lemma_decimal_text_digits(n as nat);
}

} // verus!

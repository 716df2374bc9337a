//! Small text utilities shared by the other modules.
use vstd::prelude::*;

verus! {

/// The decimal digit character for `d < 10`.
pub open spec fn digit_char(d: nat) -> char {
    if d == 0 {
        '0'
    } else if d == 1 {
        '1'
    } else if d == 2 {
        '2'
    } else if d == 3 {
        '3'
    } else if d == 4 {
        '4'
    } else if d == 5 {
        '5'
    } else if d == 6 {
        '6'
    } else if d == 7 {
        '7'
    } else if d == 8 {
        '8'
    } else {
        '9'
    }
}

/// Decimal notation of `n`, most significant digit first, without leading zeros.
pub open spec fn decimal(n: nat) -> Seq<char>
    decreases n,
{
    if n < 10 {
        seq![digit_char(n)]
    } else {
        decimal(n / 10).push(digit_char(n % 10))
    }
}

fn digit_str(d: u64) -> (s: &'static str)
    requires
        d < 10,
    ensures
        s@ == seq![digit_char(d as nat)],
{
    proof {
        reveal_strlit("0");
        reveal_strlit("1");
        reveal_strlit("2");
        reveal_strlit("3");
        reveal_strlit("4");
        reveal_strlit("5");
        reveal_strlit("6");
        reveal_strlit("7");
        reveal_strlit("8");
        reveal_strlit("9");
    }
    let s = if d == 0 {
        "0"
    } else if d == 1 {
        "1"
    } else if d == 2 {
        "2"
    } else if d == 3 {
        "3"
    } else if d == 4 {
        "4"
    } else if d == 5 {
        "5"
    } else if d == 6 {
        "6"
    } else if d == 7 {
        "7"
    } else if d == 8 {
        "8"
    } else {
        "9"
    };
    assert(s@ =~= seq![digit_char(d as nat)]);
    s
}

/// Renders `n` in decimal.
pub fn decimal_string(n: u64) -> (r: String)
    ensures
        r@ == decimal(n as nat),
{
    let mut rest: u64 = n / 10;
    let mut out = String::from_str(digit_str(n % 10));
    assert(n < 10 ==> decimal(n as nat) == out@);
    while rest > 0
        invariant
            rest == 0 ==> decimal(n as nat) == out@,
            rest > 0 ==> decimal(n as nat) == decimal(rest as nat) + out@,
        decreases rest,
    {
        let d = digit_str(rest % 10);
        let next = String::from_str(d).concat(out.as_str());
        proof {
            let r = rest as nat;
            if r >= 10 {
                assert(decimal(r) == decimal(r / 10).push(digit_char(r % 10)));
                assert(decimal(r / 10) + next@ =~= decimal(r) + out@);
            } else {
                assert(decimal(r) == seq![digit_char(r)]);
                assert(next@ =~= decimal(r) + out@);
            }
        }
        out = next;
        rest = rest / 10;
    }
    out
}

/// The first `n` characters of `s`, or all of it when it is shorter.
pub open spec fn head(s: Seq<char>, n: nat) -> Seq<char> {
    if s.len() > n {
        s.take(n as int)
    } else {
        s
    }
}

/// The last `n` characters of `s`, or all of it when it is shorter.
pub open spec fn tail(s: Seq<char>, n: nat) -> Seq<char> {
    if s.len() > n {
        s.skip(s.len() - n)
    } else {
        s
    }
}

/// Copies at most the first `n` characters of `s`.
pub fn head_of(s: &str, n: usize) -> (r: String)
    ensures
        r@ == head(s@, n as nat),
{
    let len = s.unicode_len();
    if len > n {
        String::from_str(s.substring_char(0, n))
    } else {
        String::from_str(s)
    }
}

/// Copies at most the last `n` characters of `s`.
pub fn tail_of(s: &str, n: usize) -> (r: String)
    ensures
        r@ == tail(s@, n as nat),
{
    let len = s.unicode_len();
    if len > n {
        String::from_str(s.substring_char(len - n, len))
    } else {
        String::from_str(s)
    }
}

} // verus!

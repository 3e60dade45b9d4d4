//! Building and reading strings one character at a time.
use vstd::prelude::*;

verus! {

/// Appends one character to a string. Wraps `String::push`, which places the
/// character after everything the string already holds.
#[verifier::external_body]
pub(crate) fn push_char(out: &mut String, c: char)
    ensures
        final(out)@ == old(out)@.push(c),
{
    out.push(c)
}

/// The characters of a string slice, in order.
pub fn chars_of(s: &str) -> (chars: Vec<char>)
    ensures
        chars@ == s@,
{
    let mut chars: Vec<char> = Vec::new();
    for c in it: s.chars()
        invariant
            it.seq() == s@,
            chars@ == s@.take(it.index() as int),
    {
        chars.push(c);
        assert(s@.take(it.index() + 1) == s@.take(it.index() as int).push(s@[it.index() as int]));
    }
    chars
}

/// The string made of the given characters, in order.
pub fn string_of(chars: &Vec<char>) -> (s: String)
    ensures
        s@ == chars@,
{
    let mut s = String::new();
    let mut i: usize = 0;
    while i < chars.len()
        invariant
            i <= chars.len(),
            s@ == chars@.take(i as int),
        decreases chars.len() - i,
    {
        push_char(&mut s, chars[i]);
        assert(chars@.take(i + 1) == chars@.take(i as int).push(chars@[i as int]));
        i += 1;
    }
    s
}

/// Appends the given characters to `out`, last one first.
pub fn push_reversed(out: &mut String, low: &Vec<char>)
    ensures
        final(out)@ == old(out)@ + low@.reverse(),
{
    let mut i: usize = low.len();
    while i > 0
        invariant
            i <= low.len(),
            out@ == old(out)@ + low@.reverse().take(low.len() - i),
        decreases i,
    {
        i -= 1;
        push_char(out, low[i]);
        assert(low@.reverse().take(low.len() - i) == low@.reverse().take(low.len() - i - 1).push(
            low@[i as int],
        ));
    }
    assert(low@.reverse().take(low.len() as int) == low@.reverse());
}

/// The character of a decimal digit.
pub open spec fn digit_char(d: nat) -> char
    recommends
        d < 10,
{
    (48 + d) as char
}

/// The decimal numeral of a natural number, without leading zeros.
pub open spec fn decimal(n: nat) -> Seq<char>
    decreases n,
{
    if n < 10 {
        seq![digit_char(n)]
    } else {
        decimal(n / 10).push(digit_char(n % 10))
    }
}

/// What is still to be written in front of the digits already taken off `m`.
spec fn decimal_head(m: nat) -> Seq<char> {
    if m == 0 {
        Seq::empty()
    } else {
        decimal(m)
    }
}

proof fn lemma_decimal_step(m: nat)
    requires
        m > 0,
    ensures
        decimal(m) == decimal_head(m / 10).push(digit_char(m % 10)),
{
    if m < 10 {
        assert(m / 10 == 0);
        assert(m % 10 == m);
        assert(decimal(m) == Seq::<char>::empty().push(digit_char(m)));
    }
}

/// Appends the decimal numeral of `n` to `out`.
pub fn push_decimal(out: &mut String, n: u128)
    ensures
        final(out)@ == old(out)@ + decimal(n as nat),
{
    let mut low: Vec<char> = Vec::new();
    let mut m: u128 = n / 10;
    low.push(((48 + (n % 10)) as u8) as char);
    proof {
        if n == 0 {
            assert(decimal(0) == seq![digit_char(0)]);
        } else {
            lemma_decimal_step(n as nat);
        }
        assert(low@.reverse() == seq![digit_char((n % 10) as nat)]);
    }
    while m > 0
        invariant
            decimal(n as nat) == decimal_head(m as nat) + low@.reverse(),
        decreases m,
    {
        let ghost before = low@;
        low.push(((48 + (m % 10)) as u8) as char);
        proof {
            lemma_decimal_step(m as nat);
            let d = digit_char((m % 10) as nat);
            assert(low@.reverse() == seq![d] + before.reverse());
            assert(decimal_head((m / 10) as nat).push(d) + before.reverse() == decimal_head(
                (m / 10) as nat,
            ) + (seq![d] + before.reverse()));
        }
        m = m / 10;
    }
    push_reversed(out, &low);
}

} // verus!

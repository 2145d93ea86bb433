//! Building message text: literals and numbers in decimal or hexadecimal.
use vstd::prelude::*;
use vstd::string::*;

verus! {

/// The decimal digits of `n`.
pub open spec fn dec_chars(n: nat) -> Seq<char>
    decreases n,
{
    if n < 10 {
        seq![digit_char(n)]
    } else {
        dec_chars(n / 10).push(digit_char(n % 10))
    }
}

/// The lower-case hexadecimal digits of `n`.
pub open spec fn hex_chars(n: nat) -> Seq<char>
    decreases n,
{
    if n < 16 {
        seq![digit_char(n)]
    } else {
        hex_chars(n / 16).push(digit_char(n % 16))
    }
}

/// The character of digit `d` (below 16).
pub open spec fn digit_char(d: nat) -> char {
    "0123456789abcdef"@[d as int]
}

fn digit(d: u64) -> (r: char)
    requires
        d < 16,
    ensures
        r == digit_char(d as nat),
{
    proof {
        reveal_strlit("0123456789abcdef");
    }
    "0123456789abcdef".get_char(d as usize)
}

/// Appends the decimal digits of `n`.
pub fn push_dec(out: &mut Vec<char>, n: u64)
    ensures
        final(out)@ == old(out)@ + dec_chars(n as nat),
    decreases n,
{
    if n >= 10 {
        push_dec(out, n / 10);
    }
    out.push(digit(n % 10));
    assert(final(out)@ =~= old(out)@ + dec_chars(n as nat));
}

/// Appends the hexadecimal digits of `n`.
pub fn push_hex(out: &mut Vec<char>, n: u64)
    ensures
        final(out)@ == old(out)@ + hex_chars(n as nat),
    decreases n,
{
    if n >= 16 {
        push_hex(out, n / 16);
    }
    out.push(digit(n % 16));
    assert(final(out)@ =~= old(out)@ + hex_chars(n as nat));
}

/// Appends the characters of `s`.
pub fn push_str(out: &mut Vec<char>, s: &str)
    ensures
        final(out)@ == old(out)@ + s@,
{
    let n = s.unicode_len();
    let mut i: usize = 0;
    while i < n
        invariant
            i <= n,
            n == s@.len(),
            out@ == old(out)@ + s@.take(i as int),
        decreases n - i,
    {
        out.push(s.get_char(i));
        assert(old(out)@ + s@.take(i as int + 1) =~= (old(out)@ + s@.take(i as int)).push(s@[i as int]));
        i = i + 1;
    }
    assert(s@.take(i as int) =~= s@);
}

/// Appends the characters of `v`.
pub fn push_chars(out: &mut Vec<char>, v: &Vec<char>)
    ensures
        final(out)@ == old(out)@ + v@,
{
    let mut i: usize = 0;
    while i < v.len()
        invariant
            i <= v@.len(),
            out@ == old(out)@ + v@.take(i as int),
        decreases v@.len() - i,
    {
        out.push(v[i]);
        assert(old(out)@ + v@.take(i as int + 1) =~= (old(out)@ + v@.take(i as int)).push(v@[i as int]));
        i = i + 1;
    }
    assert(v@.take(i as int) =~= v@);
}

} // verus!

//! Building manifest text: decimal numbers and zero padding.

use vstd::prelude::*;

verus! {

/// The ASCII digit of `d` (0..=9).
pub open spec fn digit(d: nat) -> char {
    if d == 0 {
        '0'
    } else if d == 1 {
        '1'
    } else if d == 2 {
        '2'
    } else if d == 3 {
        '3'
    } else if d == 4 {
        '4'
    } else if d == 5 {
        '5'
    } else if d == 6 {
        '6'
    } else if d == 7 {
        '7'
    } else if d == 8 {
        '8'
    } else {
        '9'
    }
}

/// Decimal representation of `n`, no leading zeros ("0" for zero).
pub open spec fn dec(n: nat) -> Seq<char>
    decreases n,
{
    if n < 10 {
        seq![digit(n)]
    } else {
        dec(n / 10).push(digit(n % 10))
    }
}

/// `n` in decimal, left-padded with zeros to at least `width` characters.
pub open spec fn dec_pad(n: nat, width: nat) -> Seq<char> {
    let d = dec(n);
    if d.len() >= width {
        d
    } else {
        Seq::new((width - d.len()) as nat, |i: int| '0') + d
    }
}

/// The value of a decimal digit character.
pub open spec fn digit_value(c: char) -> int {
    (c as int) - ('0' as int)
}

/// The number a string of decimal digits stands for (leading zeros allowed).
pub open spec fn dec_value(s: Seq<char>) -> int
    decreases s.len(),
{
    if s.len() == 0 {
        0
    } else {
        dec_value(s.drop_last()) * 10 + digit_value(s.last())
    }
}

/// `10^k`.
pub open spec fn pow10(k: nat) -> int
    decreases k,
{
    if k == 0 {
        1
    } else {
        pow10((k - 1) as nat) * 10
    }
}

proof fn lemma_digit_value(d: nat)
    requires
        d < 10,
    ensures
        digit_value(digit(d)) == d,
{
}

proof fn lemma_dec_value_concat(a: Seq<char>, b: Seq<char>)
    ensures
        dec_value(a + b) == dec_value(a) * pow10(b.len()) + dec_value(b),
    decreases b.len(),
{
    if b.len() == 0 {
        assert(a + b =~= a);
    } else {
        let b0 = b.drop_last();
        lemma_dec_value_concat(a, b0);
        assert((a + b).drop_last() =~= a + b0);
        assert((a + b).last() == b.last());
        let x = dec_value(a);
        let p = pow10(b0.len());
        assert((x * p + dec_value(b0)) * 10 + digit_value(b.last()) == x * (p * 10) + (dec_value(b0)
            * 10 + digit_value(b.last()))) by (nonlinear_arith);
    }
}

proof fn lemma_dec_value_zeros(k: nat)
    ensures
        dec_value(Seq::new(k, |i: int| '0')) == 0,
    decreases k,
{
    if k > 0 {
        lemma_dec_value_zeros((k - 1) as nat);
        assert(Seq::new(k, |i: int| '0').drop_last() =~= Seq::new((k - 1) as nat, |i: int| '0'));
    }
}

/// Reading back a number written in decimal gives the number.
pub proof fn lemma_dec_value_dec(n: nat)
    ensures
        dec_value(dec(n)) == n,
    decreases n,
{
    if n < 10 {
        lemma_digit_value(n);
        assert(dec(n).drop_last() =~= Seq::<char>::empty());
        assert(dec(n).last() == digit(n));
        assert(dec_value(dec(n)) == dec_value(Seq::<char>::empty()) * 10 + digit_value(digit(n)));
    } else {
        lemma_dec_value_dec(n / 10);
        lemma_digit_value(n % 10);
        assert(dec(n).drop_last() =~= dec(n / 10));
        assert(dec(n).last() == digit(n % 10));
        assert(dec_value(dec(n)) == dec_value(dec(n / 10)) * 10 + digit_value(digit(n % 10)));
        assert((n / 10) * 10 + n % 10 == n);
    }
}

/// Reading back a zero-padded decimal number gives the number.
pub proof fn lemma_dec_value_dec_pad(n: nat, width: nat)
    ensures
        dec_value(dec_pad(n, width)) == n,
{
    lemma_dec_value_dec(n);
    let d = dec(n);
    if d.len() < width {
        let z = Seq::new((width - d.len()) as nat, |i: int| '0');
        lemma_dec_value_concat(z, d);
        lemma_dec_value_zeros((width - d.len()) as nat);
    }
}

/// `String::push`: appends one character.
#[verifier::external_body]
pub(crate) fn push_char(s: &mut String, c: char)
    ensures
        final(s)@ == old(s)@.push(c),
{
    s.push(c)
}

/// Appends a literal.
pub fn push_str(s: &mut String, t: &str)
    ensures
        final(s)@ == old(s)@ + t@,
{
    s.append(t);
}

fn digit_char(d: u64) -> (c: char)
    requires
        d < 10,
    ensures
        c == digit(d as nat),
{
    match d {
        0 => '0',
        1 => '1',
        2 => '2',
        3 => '3',
        4 => '4',
        5 => '5',
        6 => '6',
        7 => '7',
        8 => '8',
        _ => '9',
    }
}

/// Appends `n` in decimal.
pub fn push_dec(s: &mut String, n: u64)
    ensures
        final(s)@ == old(s)@ + dec(n as nat),
    decreases n,
{
    if n >= 10 {
        push_dec(s, n / 10);
    }
    push_char(s, digit_char(n % 10));
    assert(old(s)@ + dec(n as nat) =~= if n >= 10 {
        old(s)@ + dec((n / 10) as nat) + seq![digit((n % 10) as nat)]
    } else {
        old(s)@ + seq![digit((n % 10) as nat)]
    });
}

/// The number of decimal digits of `n`.
fn dec_len(n: u64) -> (res: u64)
    ensures
        res == dec(n as nat).len(),
    decreases n,
{
    if n < 10 {
        1
    } else {
        let r = dec_len(n / 10);
        proof {
            lemma_dec_len_bound((n / 10) as nat);
        }
        r + 1
    }
}

proof fn lemma_dec_len_bound(n: nat)
    ensures
        dec(n).len() <= n + 1,
        dec(n).len() >= 1,
    decreases n,
{
    if n >= 10 {
        lemma_dec_len_bound(n / 10);
    }
}

/// Appends `n` in decimal, zero-padded to at least `width` characters.
pub fn push_dec_pad(s: &mut String, n: u64, width: u64)
    ensures
        final(s)@ == old(s)@ + dec_pad(n as nat, width as nat),
{
    let len = dec_len(n);
    if len < width {
        let mut k: u64 = len;
        while k < width
            invariant
                len <= k <= width,
                s@ == old(s)@ + Seq::new((k - len) as nat, |i: int| '0'),
            decreases width - k,
        {
            push_char(s, '0');
            k = k + 1;
            assert(s@ =~= old(s)@ + Seq::new((k - len) as nat, |i: int| '0'));
        }
    }
    let ghost mid = s@;
    push_dec(s, n);
    assert(s@ =~= old(s)@ + dec_pad(n as nat, width as nat));
}

/// The characters of `s`, one by one.
pub(crate) fn str_chars(s: &str) -> (res: Vec<char>)
    ensures
        res@ == s@,
{
    let n = s.unicode_len();
    let mut v: Vec<char> = Vec::new();
    let mut i: usize = 0;
    while i < n
        invariant
            i <= n,
            n == s@.len(),
            v@ == s@.subrange(0, i as int),
        decreases n - i,
    {
        v.push(s.get_char(i));
        i = i + 1;
        assert(v@ =~= s@.subrange(0, i as int));
    }
    assert(s@.subrange(0, n as int) =~= s@);
    v
}

/// The characters `v[lo..hi]` as a string.
pub(crate) fn chars_string(v: &Vec<char>, lo: usize, hi: usize) -> (res: String)
    requires
        lo <= hi <= v@.len(),
    ensures
        res@ == v@.subrange(lo as int, hi as int),
{
    let mut s = String::new();
    let mut i: usize = lo;
    while i < hi
        invariant
            lo <= i <= hi,
            hi <= v@.len(),
            s@ == v@.subrange(lo as int, i as int),
        decreases hi - i,
    {
        push_char(&mut s, v[i]);
        i = i + 1;
        assert(s@ =~= v@.subrange(lo as int, i as int));
    }
    s
}

} // verus!

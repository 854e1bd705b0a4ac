//! Human-readable byte counts and durations.

use vstd::prelude::*;

verus! {

/// The character of a decimal digit.
pub open spec fn digit_char(d: nat) -> char
    recommends
        d < 10,
{
    seq!['0', '1', '2', '3', '4', '5', '6', '7', '8', '9'][d as int]
}

/// The decimal digits of `n`, most significant first, without leading zeros.
pub open spec fn decimal(n: nat) -> Seq<char>
    decreases n,
{
    if n < 10 {
        seq![digit_char(n)]
    } else {
        decimal(n / 10).push(digit_char(n % 10))
    }
}

/// `s` right-aligned in a field of `width` characters, filled with `fill`.
pub open spec fn pad_left(s: Seq<char>, width: nat, fill: char) -> Seq<char> {
    if s.len() >= width {
        s
    } else {
        Seq::new((width - s.len()) as nat, |i: int| fill) + s
    }
}

proof fn lemma_decimal_len(n: nat)
    ensures
        1 <= decimal(n).len(),
        n < 10 ==> decimal(n).len() == 1,
        10 <= n < 100 ==> decimal(n).len() == 2,
        100 <= n < 1000 ==> decimal(n).len() == 3,
        1000 <= n < 10000 ==> decimal(n).len() == 4,
        10000 <= n ==> decimal(n).len() >= 5,
    decreases n,
{
    if n >= 10 {
        lemma_decimal_len(n / 10);
    }
}

fn digit_str(d: u64) -> (r: &'static str)
    requires
        d < 10,
    ensures
        r@ == seq![digit_char(d as nat)],
{
    match d {
        0 => {
            proof { reveal_strlit("0"); }
            "0"
        },
        1 => {
            proof { reveal_strlit("1"); }
            "1"
        },
        2 => {
            proof { reveal_strlit("2"); }
            "2"
        },
        3 => {
            proof { reveal_strlit("3"); }
            "3"
        },
        4 => {
            proof { reveal_strlit("4"); }
            "4"
        },
        5 => {
            proof { reveal_strlit("5"); }
            "5"
        },
        6 => {
            proof { reveal_strlit("6"); }
            "6"
        },
        7 => {
            proof { reveal_strlit("7"); }
            "7"
        },
        8 => {
            proof { reveal_strlit("8"); }
            "8"
        },
        _ => {
            proof { reveal_strlit("9"); }
            "9"
        },
    }
}

/// Appends the decimal digits of `n`.
fn push_decimal(out: &mut String, n: u64)
    ensures
        final(out)@ == old(out)@ + decimal(n as nat),
    decreases n,
{
    if n >= 10 {
        push_decimal(out, n / 10);
    }
    out.append(digit_str(n % 10));
}

/// The number of decimal digits of `n`, counted up to five.
fn short_decimal_len(n: u64) -> (r: usize)
    ensures
        r <= 5,
        r < 5 ==> r == decimal(n as nat).len(),
        r == 5 ==> decimal(n as nat).len() >= 5,
{
    proof { lemma_decimal_len(n as nat); }
    if n < 10 {
        1
    } else if n < 100 {
        2
    } else if n < 1000 {
        3
    } else if n < 10000 {
        4
    } else {
        5
    }
}

/// Appends `n` in decimal, right-aligned in a field of `width` characters
/// filled with `fill`.
fn push_padded(out: &mut String, n: u64, width: usize, fill: &str)
    requires
        width <= 4,
        fill@.len() == 1,
    ensures
        final(out)@ == old(out)@ + pad_left(decimal(n as nat), width as nat, fill@[0]),
{
    let len = short_decimal_len(n);
    let ghost start = out@;
    let mut i: usize = len;
    while i < width
        invariant
            len <= i,
            len < width ==> i <= width,
            len >= width ==> i == len,
            fill@.len() == 1,
            out@ == start + Seq::new((i - len) as nat, |j: int| fill@[0]),
        decreases width - i,
    {
        out.append(fill);
        proof {
            assert(Seq::new((i - len) as nat, |j: int| fill@[0]).push(fill@[0])
                =~= Seq::new((i + 1 - len) as nat, |j: int| fill@[0]));
        }
        i = i + 1;
    }
    push_decimal(out, n);
    proof {
        if len < width {
            assert(out@ =~= start + pad_left(decimal(n as nat), width as nat, fill@[0]));
        } else {
            assert(Seq::new((i - len) as nat, |j: int| fill@[0]) =~= Seq::<char>::empty());
            assert(out@ =~= start + pad_left(decimal(n as nat), width as nat, fill@[0]));
        }
    }
}

/// Appends `t` right-aligned in a field of `width` characters filled with spaces.
fn push_right_aligned(out: &mut String, t: &str, width: usize)
    ensures
        final(out)@ == old(out)@ + pad_left(t@, width as nat, ' '),
{
    let len = t.unicode_len();
    let ghost start = out@;
    let mut i: usize = len;
    while i < width
        invariant
            len == t@.len(),
            len <= i,
            len < width ==> i <= width,
            len >= width ==> i == len,
            out@ == start + Seq::new((i - len) as nat, |j: int| ' '),
        decreases width - i,
    {
        out.append(" ");
        proof {
            reveal_strlit(" ");
            assert(Seq::new((i - len) as nat, |j: int| ' ').push(' ') =~= Seq::new(
                (i + 1 - len) as nat,
                |j: int| ' ',
            ));
        }
        i = i + 1;
    }
    out.append(t);
    proof {
        if len >= width {
            assert(Seq::new((i - len) as nat, |j: int| ' ') =~= Seq::<char>::empty());
        }
        assert(out@ =~= start + pad_left(t@, width as nat, ' '));
    }
}

/// Ten to the power `p`, for the precisions in use (0, 1 or 2 fractional digits).
pub open spec fn pow10(p: nat) -> nat {
    if p == 0 {
        1
    } else if p == 1 {
        10
    } else {
        100
    }
}

/// `a / d` rounded to the nearest integer, ties to the even neighbour.
pub open spec fn round_half_even(a: nat, d: nat) -> nat
    recommends
        d > 0,
{
    let q = a / d;
    let r = a % d;
    if 2 * r > d || (2 * r == d && q % 2 == 1) {
        q + 1
    } else {
        q
    }
}

/// Fractional digits shown for the value `n / scale`: two below 10, one
/// below 100, none above.
pub open spec fn precision(n: nat, scale: nat) -> nat {
    if n < 10 * scale {
        2
    } else if n < 100 * scale {
        1
    } else {
        0
    }
}

/// `n / scale` written with `p` fractional digits.
pub open spec fn fixed_text(n: nat, scale: nat, p: nat) -> Seq<char> {
    let q = round_half_even(n * pow10(p), scale);
    if p == 0 {
        decimal(q)
    } else {
        decimal(q / pow10(p)) + seq!['.'] + pad_left(decimal(q % pow10(p)), p, '0')
    }
}

/// `n / scale` in a four-character field, then the unit.
pub open spec fn scaled_text(n: nat, scale: nat, unit: Seq<char>) -> Seq<char> {
    pad_left(fixed_text(n, scale, precision(n, scale)), 4, ' ') + seq![' '] + unit
}

/// How `Bytes(n)` reads: plain bytes below 2048, else KiB, MiB or GiB,
/// each while the value stays below 2048 of that unit.
pub open spec fn bytes_text(n: nat) -> Seq<char> {
    if n < 2048 {
        pad_left(decimal(n), 4, ' ') + seq![' ', 'B']
    } else if n < 2048 * 1024 {
        scaled_text(n, 1024, seq!['K', 'i', 'B'])
    } else if n < 2048 * 1024 * 1024 {
        scaled_text(n, 1024 * 1024, seq!['M', 'i', 'B'])
    } else {
        scaled_text(n, 1024 * 1024 * 1024, seq!['G', 'i', 'B'])
    }
}

proof fn lemma_scaled_down(n: int, m: int, scale: int)
    requires
        1 <= n,
        0 <= m <= 100,
        scale >= 1024,
    ensures
        (n * m) / scale < n,
{
    let q = (n * m) / scale;
    assert(n * m < n * scale) by (nonlinear_arith)
        requires
            1 <= n,
            0 <= m <= 100,
            scale >= 1024,
    ;
    vstd::arithmetic::div_mod::lemma_fundamental_div_mod(n * m, scale);
    vstd::arithmetic::div_mod::lemma_mod_bound(n * m, scale);
    assert(q < n) by (nonlinear_arith)
        requires
            scale > 0,
            scale * q <= n * m,
            n * m < n * scale,
    ;
}

/// Appends `n / scale` with `p` fractional digits.
fn push_fixed(out: &mut String, n: u64, scale: u64, p: u64)
    requires
        scale >= 1024,
        p <= 2,
    ensures
        final(out)@ == old(out)@ + fixed_text(n as nat, scale as nat, p as nat),
{
    let m: u64 = if p == 0 {
        1
    } else if p == 1 {
        10
    } else {
        100
    };
    let a: u128 = n as u128 * m as u128;
    let q0: u128 = a / scale as u128;
    let r: u128 = a % scale as u128;
    proof {
        if n > 0 {
            lemma_scaled_down(n as int, m as int, scale as int);
        }
    }
    let q: u128 = if 2 * r > scale as u128 || (2 * r == scale as u128 && q0 % 2 == 1) {
        q0 + 1
    } else {
        q0
    };
    assert(q == round_half_even((n * pow10(p as nat)) as nat, scale as nat));
    if p == 0 {
        push_decimal(out, q as u64);
    } else {
        push_decimal(out, (q / m as u128) as u64);
        proof { reveal_strlit("."); }
        out.append(".");
        let w: usize = if p == 1 { 1 } else { 2 };
        proof { reveal_strlit("0"); }
        push_padded(out, (q % m as u128) as u64, w, "0");
    }
    assert(out@ =~= old(out)@ + fixed_text(n as nat, scale as nat, p as nat));
}

/// A byte count, shown with a binary unit.
pub struct Bytes(pub usize);

impl Bytes {
    /// The count as text: a four-character numeric field, then the unit.
    pub fn render(&self) -> (r: String)
        ensures
            r@ == bytes_text(self.0 as nat),
    {
        let n = self.0 as u64;
        let mut out = String::new();
        if n < 2048 {
            proof { reveal_strlit(" "); reveal_strlit(" B"); }
            push_padded(&mut out, n, 4, " ");
            out.append(" B");
        } else {
            let (scale, unit): (u64, &str) = if n < 2048 * 1024 {
                proof { reveal_strlit(" KiB"); }
                (1024, " KiB")
            } else if n < 2048 * 1024 * 1024 {
                proof { reveal_strlit(" MiB"); }
                (1024 * 1024, " MiB")
            } else {
                proof { reveal_strlit(" GiB"); }
                (1024 * 1024 * 1024, " GiB")
            };
            let p: u64 = if n < 10 * scale {
                2
            } else if n < 100 * scale {
                1
            } else {
                0
            };
            let mut t = String::new();
            push_fixed(&mut t, n, scale, p);
            push_right_aligned(&mut out, t.as_str(), 4);
            out.append(unit);
        }
        assert(out@ =~= bytes_text(self.0 as nat));
        out
    }
}

/// Two-digit, zero-filled field.
pub open spec fn two_digits(n: nat) -> Seq<char> {
    pad_left(decimal(n), 2, '0')
}

/// How `Duration(s)` reads: `m:ss`, `h:mm:ss` or `d:hh:mm:ss`, the shortest
/// form that keeps every non-zero leading component.
pub open spec fn duration_text(s: nat) -> Seq<char> {
    let days = s / 86400;
    let hrs = (s / 3600) % 24;
    let mins = (s / 60) % 60;
    let secs = s % 60;
    if days == 0 && hrs == 0 {
        decimal(mins) + seq![':'] + two_digits(secs)
    } else if days == 0 {
        decimal(hrs) + seq![':'] + two_digits(mins) + seq![':'] + two_digits(secs)
    } else {
        decimal(days) + seq![':'] + two_digits(hrs) + seq![':'] + two_digits(mins) + seq![':']
            + two_digits(secs)
    }
}

/// A span of whole seconds.
pub struct Duration(pub u64);

impl Duration {
    /// The span as text, see [`duration_text`].
    pub fn render(&self) -> (r: String)
        ensures
            r@ == duration_text(self.0 as nat),
    {
        let s = self.0;
        let days = s / 86400;
        let hrs = (s / 3600) % 24;
        let mins = (s / 60) % 60;
        let secs = s % 60;
        let mut out = String::new();
        proof {
            reveal_strlit(":");
            reveal_strlit("0");
        }
        if days == 0 && hrs == 0 {
            push_decimal(&mut out, mins);
        } else {
            if days == 0 {
                push_decimal(&mut out, hrs);
            } else {
                push_decimal(&mut out, days);
                out.append(":");
                push_padded(&mut out, hrs, 2, "0");
            }
            out.append(":");
            push_padded(&mut out, mins, 2, "0");
        }
        out.append(":");
        push_padded(&mut out, secs, 2, "0");
        assert(out@ =~= duration_text(self.0 as nat));
        out
    }
}

} // verus!

//! Numbers written as text and read back.

use vstd::prelude::*;

use crate::text;

verus! {

// ---------------------------------------------------------------------------
// Writing
// ---------------------------------------------------------------------------

/// The digit `d` (below sixteen) in lower case.
pub open spec fn digit_char(d: nat) -> char {
    if d < 10 {
        (d + 48) as char
    } else {
        (d + 87) as char
    }
}

/// `n` in decimal, without leading zeros.
pub open spec fn decimal(n: nat) -> Seq<char>
    decreases n,
{
    if n < 10 {
        seq![digit_char(n)]
    } else {
        decimal(n / 10).push(digit_char(n % 10))
    }
}

/// `i` in decimal, with a minus sign if it is negative.
pub open spec fn signed_decimal(i: int) -> Seq<char> {
    if i < 0 {
        seq!['-'] + decimal((-i) as nat)
    } else {
        decimal(i as nat)
    }
}

/// The last `width` hexadecimal digits of `n`.
pub open spec fn hex_digits(n: nat, width: nat) -> Seq<char>
    decreases width,
{
    if width == 0 {
        Seq::empty()
    } else {
        hex_digits(n / 16, (width - 1) as nat).push(digit_char(n % 16))
    }
}

/// Each byte as two lower-case hexadecimal digits.
pub open spec fn hex_bytes(bytes: Seq<u8>) -> Seq<char> {
    Seq::new(
        2 * bytes.len(),
        |i: int|
            if i % 2 == 0 {
                digit_char((bytes[i / 2] / 16) as nat)
            } else {
                digit_char((bytes[i / 2] % 16) as nat)
            },
    )
}

/// `n`, below a hundred, in two decimal digits.
pub open spec fn two_digits(n: int) -> Seq<char> {
    seq![digit_char((n / 10) as nat), digit_char((n % 10) as nat)]
}

fn digit(d: u8) -> (c: char)
    requires
        d < 16,
    ensures
        c == digit_char(d as nat),
{
    if d < 10 {
        (d + 48) as char
    } else {
        (d + 87) as char
    }
}

/// `n` in decimal.
pub fn render_u64(n: u64) -> (s: String)
    ensures
        s@ == decimal(n as nat),
    decreases n,
{
    if n < 10 {
        let mut s = String::new();
        s.push(digit(n as u8));
        assert(s@ =~= seq![digit_char(n as nat)]);
        s
    } else {
        let mut s = render_u64(n / 10);
        s.push(digit((n % 10) as u8));
        s
    }
}

/// `i` in decimal.
pub fn render_i64(i: i64) -> (s: String)
    ensures
        s@ == signed_decimal(i as int),
{
    if i < 0 {
        let m: u64 = if i == i64::MIN {
            0x8000_0000_0000_0000
        } else {
            (-i) as u64
        };
        let mut s = "-".to_owned();
        s.append(render_u64(m).as_str());
        proof {
            reveal_strlit("-");
            assert("-"@ =~= seq!['-']);
        }
        s
    } else {
        render_u64(i as u64)
    }
}

/// `n` in sixteen hexadecimal digits.
pub fn render_hex16(n: u64) -> (s: String)
    ensures
        s@ == hex_digits(n as nat, 16),
{
    render_hex(n, 16)
}

fn render_hex(n: u64, width: u8) -> (s: String)
    ensures
        s@ == hex_digits(n as nat, width as nat),
    decreases width,
{
    if width == 0 {
        String::new()
    } else {
        let mut s = render_hex(n / 16, width - 1);
        s.push(digit((n % 16) as u8));
        s
    }
}

/// Appends `n`, below a hundred, in two digits.
pub fn push_two_digits(s: &mut String, n: u8)
    requires
        n < 100,
    ensures
        final(s)@ == old(s)@ + two_digits(n as int),
{
    s.push(digit(n / 10));
    s.push(digit(n % 10));
    assert(s@ =~= old(s)@ + two_digits(n as int));
}

// ---------------------------------------------------------------------------
// Reading
// ---------------------------------------------------------------------------

/// Whether `s` is one or more decimal digits.
pub open spec fn all_digits(s: Seq<char>) -> bool {
    s.len() > 0 && forall|i: int| 0 <= i < s.len() ==> '0' <= #[trigger] s[i] <= '9'
}

/// The number that the digits `s` write.
pub open spec fn digits_value(s: Seq<char>) -> nat
    decreases s.len(),
{
    if s.len() == 0 {
        0
    } else {
        10 * digits_value(s.drop_last()) + ((s.last() as int) - 48) as nat
    }
}

/// `s` without one sign `c` at its start.
pub open spec fn unsigned_part(s: Seq<char>, c: char) -> Seq<char> {
    if s.len() > 0 && s[0] == c {
        s.drop_first()
    } else {
        s
    }
}

/// The number below 2^16 that `s` writes: decimal digits, with an optional `+` before them.
pub open spec fn u16_value(s: Seq<char>) -> Option<u16> {
    let d = unsigned_part(s, '+');
    if all_digits(d) && digits_value(d) <= u16::MAX {
        Some(digits_value(d) as u16)
    } else {
        None
    }
}

/// The 64-bit signed number that `s` writes: decimal digits, with an optional sign before them.
pub open spec fn i64_value(s: Seq<char>) -> Option<i64> {
    if s.len() > 0 && s[0] == '-' {
        let d = s.drop_first();
        if all_digits(d) && digits_value(d) <= -(i64::MIN as int) {
            Some((-(digits_value(d) as int)) as i64)
        } else {
            None
        }
    } else {
        let d = unsigned_part(s, '+');
        if all_digits(d) && digits_value(d) <= i64::MAX {
            Some(digits_value(d) as i64)
        } else {
            None
        }
    }
}

proof fn lemma_digits_value_grows(s: Seq<char>, k: int)
    requires
        0 <= k <= s.len(),
    ensures
        digits_value(s.take(k)) <= digits_value(s),
    decreases s.len(),
{
    if k == s.len() {
        assert(s.take(k) =~= s);
    } else {
        assert(s.drop_last().take(k) =~= s.take(k));
        lemma_digits_value_grows(s.drop_last(), k);
    }
}

/// The value of the digits of `v` from `from` on, up to `max`.
fn read_digits(v: &Vec<char>, from: usize, max: u64) -> (r: Option<u64>)
    requires
        from <= v@.len(),
    ensures
        r is Some <==> all_digits(v@.skip(from as int)) && digits_value(v@.skip(from as int))
            <= max,
        r matches Some(n) ==> n == digits_value(v@.skip(from as int)),
{
    let ghost d = v@.skip(from as int);
    if from == v.len() {
        return None;
    }
    let mut n: u64 = 0;
    let mut i: usize = from;
    while i < v.len()
        invariant
            from <= i <= v@.len(),
            d == v@.skip(from as int),
            n == digits_value(d.take(i - from)),
            n <= max,
            forall|j: int| 0 <= j < i - from ==> '0' <= #[trigger] d[j] <= '9',
        decreases v@.len() - i,
    {
        let c = v[i];
        assert(d[i - from] == c);
        if c < '0' || c > '9' {
            return None;
        }
        let x: u64 = (c as u8 - 48) as u64;
        proof {
            let t = d.take(i - from + 1);
            assert(t.drop_last() =~= d.take(i - from));
            assert(t.last() == c);
            lemma_digits_value_grows(d, i - from + 1);
        }
        if n > max / 10 || x > max - 10 * n {
            return None;
        }
        n = 10 * n + x;
        i += 1;
    }
    assert(d.take(i - from) =~= d);
    Some(n)
}

/// Reads a 16-bit unsigned number.
pub fn parse_u16(s: &str) -> (r: Option<u16>)
    ensures
        r == u16_value(s@),
{
    let v = text::chars(s);
    let from: usize = if v.len() > 0 && v[0] == '+' {
        1
    } else {
        0
    };
    proof {
        assert(v@.skip(0) =~= s@);
        assert(from == 1 ==> v@.skip(1) =~= s@.drop_first());
    }
    match read_digits(&v, from, 65535) {
        Some(n) => Some(n as u16),
        None => None,
    }
}

/// Reads a 64-bit signed number.
pub fn parse_i64(s: &str) -> (r: Option<i64>)
    ensures
        r == i64_value(s@),
{
    let v = text::chars(s);
    proof {
        assert(v@.skip(0) =~= s@);
        assert(v@.len() > 0 ==> v@.skip(1) =~= s@.drop_first());
    }
    if v.len() > 0 && v[0] == '-' {
        match read_digits(&v, 1, 0x8000_0000_0000_0000) {
            Some(n) => if n == 0x8000_0000_0000_0000 {
                Some(i64::MIN)
            } else {
                Some(-(n as i64))
            },
            None => None,
        }
    } else {
        let from: usize = if v.len() > 0 && v[0] == '+' {
            1
        } else {
            0
        };
        match read_digits(&v, from, 0x7fff_ffff_ffff_ffff) {
            Some(n) => Some(n as i64),
            None => None,
        }
    }
}

/// A number written in decimal reads back as itself.
pub proof fn lemma_decimal_reads_back(n: nat)
    ensures
        all_digits(decimal(n)),
        digits_value(decimal(n)) == n,
    decreases n,
{
    if n < 10 {
        let s = decimal(n);
        assert(s.drop_last() =~= Seq::<char>::empty());
        assert(digits_value(s.drop_last()) == 0);
        assert(s.last() == digit_char(n));
    } else {
        lemma_decimal_reads_back(n / 10);
        let s = decimal(n);
        assert(s.drop_last() =~= decimal(n / 10));
        assert(s.last() == digit_char(n % 10));
        assert forall|i: int| 0 <= i < s.len() implies '0' <= #[trigger] s[i] <= '9' by {
            if i < s.len() - 1 {
                assert(s[i] == decimal(n / 10)[i]);
            }
        }
    }
}

/// A 64-bit signed number written in decimal reads back as itself.
pub proof fn law_i64_reads_back(i: i64)
    ensures
        i64_value(signed_decimal(i as int)) == Some(i),
{
    let s = signed_decimal(i as int);
    if i < 0 {
        lemma_decimal_reads_back((-(i as int)) as nat);
        assert(s.drop_first() =~= decimal((-(i as int)) as nat));
    } else {
        lemma_decimal_reads_back(i as nat);
        assert(s == decimal(i as nat));
        assert('0' <= s[0] <= '9');
    }
}

// ---------------------------------------------------------------------------
// Laws
// ---------------------------------------------------------------------------

/// Decimal notation: a digit stands for itself, and another digit behind a number that is not zero
/// makes ten times the number and the digit.
pub proof fn law_decimal_digit_by_digit(n: nat, d: nat)
    requires
        d < 10,
    ensures
        decimal(d) == seq!["0123456789"@[d as int]],
        n > 0 ==> decimal(10 * n + d) == decimal(n).push("0123456789"@[d as int]),
        n > 0 ==> signed_decimal(-(n as int)) == seq!['-'] + decimal(n),
        signed_decimal(n as int) == decimal(n),
{
    reveal_strlit("0123456789");
    assert((10 * n + d) / 10 == n);
    assert((10 * n + d) % 10 == d);
}

/// Whether `s` writes `n` in decimal, with or without zeros in front.
pub open spec fn writes(s: Seq<char>, n: nat) -> bool
    decreases s.len(),
{
    s == decimal(n) || (s.len() > 1 && s[0] == '0' && writes(s.drop_first(), n))
}

proof fn lemma_value_after_zero(s: Seq<char>)
    requires
        s.len() > 0,
        s[0] == '0',
    ensures
        digits_value(s.drop_first()) == digits_value(s),
    decreases s.len(),
{
    reveal_with_fuel(digits_value, 2);
    if s.len() > 1 {
        lemma_value_after_zero(s.drop_last());
        assert(s.drop_first().drop_last() =~= s.drop_last().drop_first());
        assert(s.drop_first().last() == s.last());
    } else {
        assert(s.drop_last() =~= Seq::empty());
        assert(s.drop_first() =~= Seq::empty());
    }
}

proof fn lemma_digits_are_decimal(s: Seq<char>)
    requires
        all_digits(s),
        s[0] != '0',
    ensures
        digits_value(s) > 0,
        decimal(digits_value(s)) == s,
    decreases s.len(),
{
    let v = digits_value(s);
    let front = s.drop_last();
    let d = ((s.last() as int) - 48) as nat;
    assert('0' <= s[s.len() - 1] <= '9');
    if s.len() == 1 {
        assert(front =~= Seq::empty());
        assert(digits_value(front) == 0);
        assert(v == d);
        assert(decimal(v) =~= s);
    } else {
        assert forall|i: int| 0 <= i < front.len() implies '0' <= #[trigger] front[i] <= '9' by {
            assert(front[i] == s[i]);
        }
        lemma_digits_are_decimal(front);
        assert(v == 10 * digits_value(front) + d);
        assert(v / 10 == digits_value(front));
        assert(v % 10 == d);
        assert(decimal(v) =~= front.push(s.last()));
        assert(front.push(s.last()) =~= s);
    }
}

proof fn lemma_writes(s: Seq<char>, n: nat)
    ensures
        writes(s, n) <==> all_digits(s) && digits_value(s) == n,
    decreases s.len(),
{
    if writes(s, n) {
        if s == decimal(n) {
            lemma_decimal_reads_back(n);
        } else {
            lemma_writes(s.drop_first(), n);
            lemma_value_after_zero(s);
            assert forall|i: int| 0 <= i < s.len() implies '0' <= #[trigger] s[i] <= '9' by {
                if i > 0 {
                    assert(s[i] == s.drop_first()[i - 1]);
                }
            }
        }
    }
    if all_digits(s) && digits_value(s) == n {
        if s[0] != '0' {
            lemma_digits_are_decimal(s);
        } else if s.len() == 1 {
            reveal_with_fuel(digits_value, 2);
            assert(s.drop_last() =~= Seq::empty());
            assert(s =~= decimal(0));
        } else {
            let t = s.drop_first();
            assert forall|i: int| 0 <= i < t.len() implies '0' <= #[trigger] t[i] <= '9' by {
                assert(t[i] == s[i + 1]);
            }
            lemma_value_after_zero(s);
            lemma_writes(t, n);
        }
    }
}

/// A port is read from what writes it: its decimal digits, with zeros in front of them or not and
/// with a plus sign in front of all that or not. Nothing else is read as one.
pub proof fn law_ports_are_read_as_written(s: Seq<char>, n: u16)
    ensures
        u16_value(s) == Some(n) <==> writes(s, n as nat) || (s.len() > 0 && s[0] == '+' && writes(
            s.drop_first(),
            n as nat,
        )),
        u16_value(decimal(n as nat)) == Some(n),
{
    lemma_writes(s, n as nat);
    lemma_writes(decimal(n as nat), n as nat);
    lemma_decimal_reads_back(n as nat);
    assert('0' <= decimal(n as nat)[0] <= '9');
    if s.len() > 0 {
        lemma_writes(s.drop_first(), n as nat);
        if s[0] == '+' {
            assert(!all_digits(s));
        }
    }
}

/// A timestamp is read from what writes it: decimal digits, with zeros in front of them or not and
/// with a sign in front of all that or not. Nothing else is read as one.
pub proof fn law_timestamps_are_read_as_written(s: Seq<char>, n: i64)
    ensures
        i64_value(s) == Some(n) <==> {
            ||| n >= 0 && writes(s, n as nat)
            ||| n >= 0 && s.len() > 0 && s[0] == '+' && writes(s.drop_first(), n as nat)
            ||| n <= 0 && s.len() > 0 && s[0] == '-' && writes(s.drop_first(), (-n) as nat)
        },
{
    if s.len() > 0 && (s[0] == '+' || s[0] == '-') {
        assert(!all_digits(s));
    }
    let m: nat = if n >= 0 {
        n as nat
    } else {
        (-(n as int)) as nat
    };
    lemma_writes(s, m);
    if s.len() > 0 {
        lemma_writes(s.drop_first(), m);
    }
}

/// Hexadecimal text shows each byte by the digits of its upper and its lower half.
pub proof fn law_hex_shows_each_byte(bytes: Seq<u8>, i: int)
    requires
        0 <= i < bytes.len(),
    ensures
        hex_bytes(bytes).len() == 2 * bytes.len(),
        hex_bytes(bytes)[2 * i] == "0123456789abcdef"@[(bytes[i] / 16) as int],
        hex_bytes(bytes)[2 * i + 1] == "0123456789abcdef"@[(bytes[i] % 16) as int],
{
    reveal_strlit("0123456789abcdef");
    assert((2 * i) / 2 == i);
    assert((2 * i + 1) / 2 == i);
}

/// Sixteen hexadecimal digits show a 64-bit number: the first shows its uppermost four bits, and
/// each of the others the next four.
pub proof fn law_hex_shows_each_digit(n: nat, width: nat)
    requires
        width > 0,
    ensures
        hex_digits(n, width).len() == width,
        hex_digits(n, width).last() == "0123456789abcdef"@[(n % 16) as int],
        hex_digits(n, width).drop_last() == hex_digits(n / 16, (width - 1) as nat),
        hex_digits(n, 0).len() == 0,
    decreases width,
{
    reveal_strlit("0123456789abcdef");
    if width > 1 {
        law_hex_shows_each_digit(n / 16, (width - 1) as nat);
    }
    assert(hex_digits(n, width).drop_last() =~= hex_digits(n / 16, (width - 1) as nat));
}

/// Two digits show a number below a hundred: its tens, then its ones.
pub proof fn law_two_digits_show_tens_and_ones(tens: int, ones: int)
    requires
        0 <= tens < 10,
        0 <= ones < 10,
    ensures
        two_digits(10 * tens + ones) == seq!["0123456789"@[tens], "0123456789"@[ones]],
{
    reveal_strlit("0123456789");
    assert((10 * tens + ones) / 10 == tens);
    assert((10 * tens + ones) % 10 == ones);
}

} // verus!

//! Character-level helpers: reading a `str` as characters and parsing
//! unsigned integers the way the standard library's `from_str_radix` does
//! for unsigned types.

use vstd::prelude::*;

verus! {

/// The value of `c` as a digit in base `radix`, if it is one
/// (`0-9`, then letters in either case for the values from ten on).
pub open spec fn digit_value(c: char, radix: nat) -> Option<nat> {
    let d: int = if '0' <= c && c <= '9' {
        c as int - '0' as int
    } else if 'a' <= c && c <= 'z' {
        c as int - 'a' as int + 10
    } else if 'A' <= c && c <= 'Z' {
        c as int - 'A' as int + 10
    } else {
        radix as int
    };
    if 0 <= d < radix {
        Some(d as nat)
    } else {
        None
    }
}

/// Every character of `s` is a digit in base `radix`.
pub open spec fn all_digits(s: Seq<char>, radix: nat) -> bool {
    forall|i: int| 0 <= i < s.len() ==> (#[trigger] digit_value(s[i], radix)) is Some
}

/// The number that the digits `s` denote in base `radix`, most significant first.
pub open spec fn digits_value(s: Seq<char>, radix: nat) -> nat
    decreases s.len(),
{
    if s.len() == 0 {
        0
    } else {
        digits_value(s.drop_last(), radix) * radix + digit_value(s.last(), radix).unwrap()
    }
}

/// The digits of an unsigned number: a leading `+` is dropped when something follows it.
pub open spec fn unsigned_digits(s: Seq<char>) -> Seq<char> {
    if s.len() > 1 && s[0] == '+' {
        s.drop_first()
    } else {
        s
    }
}

/// What parsing `s` as an unsigned number in base `radix` with largest value `max` gives:
/// the digits after an optional `+` must be non-empty, all valid, and denote at most `max`.
pub open spec fn parse_unsigned(s: Seq<char>, radix: nat, max: nat) -> Option<nat> {
    let d = unsigned_digits(s);
    if d.len() > 0 && all_digits(d, radix) && digits_value(d, radix) <= max {
        Some(digits_value(d, radix))
    } else {
        None
    }
}

/// A longer run of digits never denotes less than its prefix.
pub proof fn lemma_digits_value_prefix(s: Seq<char>, radix: nat, i: int)
    requires
        0 <= i <= s.len(),
        radix >= 1,
    ensures
        digits_value(s.take(i), radix) <= digits_value(s, radix),
    decreases s.len() - i,
{
    if i < s.len() {
        lemma_digits_value_prefix(s, radix, i + 1);
        let t = s.take(i + 1);
        assert(t.drop_last() =~= s.take(i));
        let a = digits_value(s.take(i), radix);
        let d = digit_value(t.last(), radix).unwrap();
        assert(a * radix + d >= a) by (nonlinear_arith)
            requires
                radix >= 1,
        ;
    } else {
        assert(s.take(i) =~= s);
    }
}

/// The characters of `s`, in order.
pub fn chars_of(s: &str) -> (res: Vec<char>)
    ensures
        res@ == s@,
{
    let mut res: Vec<char> = Vec::new();
    for c in it: s.chars()
        invariant
            res@ == it.seq().take(it.index() as int),
            it.seq() == s@,
    {
        res.push(c);
    }
    res
}

/// The value of `c` as a digit in base `radix`.
pub fn char_digit(c: char, radix: u64) -> (res: Option<u64>)
    requires
        2 <= radix <= 36,
    ensures
        res is Some <==> digit_value(c, radix as nat) is Some,
        res is Some ==> res->0 == digit_value(c, radix as nat)->0,
{
    let code = c as u32;
    let d: u64 = if '0' <= c && c <= '9' {
        (code - ('0' as u32)) as u64
    } else if 'a' <= c && c <= 'z' {
        (code - ('a' as u32)) as u64 + 10
    } else if 'A' <= c && c <= 'Z' {
        (code - ('A' as u32)) as u64 + 10
    } else {
        radix
    };
    if d < radix {
        Some(d)
    } else {
        None
    }
}

/// Parses `s` as an unsigned number in base `radix` that may not exceed `max`:
/// an optional `+` (not on its own), then at least one digit.
pub fn parse_unsigned_chars(s: &[char], radix: u64, max: u64) -> (res: Option<u64>)
    requires
        2 <= radix <= 36,
    ensures
        res is Some <==> parse_unsigned(s@, radix as nat, max as nat) is Some,
        res is Some ==> res->0 == parse_unsigned(s@, radix as nat, max as nat)->0,
{
    let ghost d = unsigned_digits(s@);
    let len = s.len();
    if len == 0 {
        return None;
    }
    let start: usize = if len > 1 && s[0] == '+' {
        1
    } else {
        0
    };
    assert(d =~= s@.skip(start as int));
    let mut acc: u64 = 0;
    let mut i: usize = start;
    while i < len
        invariant
            len == s@.len(),
            0 <= start <= i <= len,
            start <= 1,
            d =~= s@.skip(start as int),
            d == unsigned_digits(s@),
            2 <= radix <= 36,
            acc == digits_value(d.take(i - start), radix as nat),
            acc <= max,
            all_digits(d.take(i - start), radix as nat),
        decreases len - i,
    {
        let ghost k: int = i - start;
        assert(d[k] == s@[i as int]);
        let dig = char_digit(s[i], radix);
        match dig {
            None => {
                assert(digit_value(d[k], radix as nat) is None);
                assert(!all_digits(d, radix as nat));
                return None;
            },
            Some(v) => {
                let ghost t = d.take(k + 1);
                assert(t.drop_last() =~= d.take(k));
                assert(t.last() == d[k]);
                assert(digits_value(t, radix as nat) == acc * radix + v);
                let prod = acc.checked_mul(radix);
                match prod {
                    None => {
                        proof {
                            assert(acc * radix + v > max);
                            lemma_digits_value_prefix(d, radix as nat, k + 1);
                        }
                        return None;
                    },
                    Some(p) => {
                        if p > max || v > max - p {
                            proof {
                                lemma_digits_value_prefix(d, radix as nat, k + 1);
                            }
                            return None;
                        }
                        acc = p + v;
                        assert forall|j: int| 0 <= j < t.len() implies (#[trigger] digit_value(
                            t[j],
                            radix as nat,
                        )) is Some by {
                            if j < k {
                                assert(t[j] == d.take(k)[j]);
                            }
                        }
                    },
                }
            },
        }
        i = i + 1;
    }
    assert(d.take(len - start) =~= d);
    Some(acc)
}


/// The character that shows the digit `d` (below 16): `0-9`, then `A-F`.
pub open spec fn digit_char(d: nat) -> char {
    if d < 10 {
        ('0' as nat + d) as char
    } else {
        ('A' as nat + (d - 10)) as char
    }
}

/// `n` written in base `radix` with upper-case digits and no leading zeros ("0" for zero).
pub open spec fn number_text(n: nat, radix: nat) -> Seq<char>
    decreases n,
{
    if radix < 2 || n < radix {
        seq![digit_char(n)]
    } else {
        proof {
            lemma_quotient_smaller(n, radix);
        }
        number_text(n / radix, radix).push(digit_char(n % radix))
    }
}

/// `n` written in base `radix`, with leading zeros up to `width` characters.
pub open spec fn padded_number_text(n: nat, radix: nat, width: nat) -> Seq<char> {
    let t = number_text(n, radix);
    let zeros: nat = if width > t.len() {
        (width - t.len()) as nat
    } else {
        0
    };
    Seq::new(zeros, |i: int| '0') + t
}

/// Dividing by a base of at least two makes a positive number smaller.
pub proof fn lemma_quotient_smaller(n: nat, radix: nat)
    requires
        n >= radix,
        radix >= 2,
    ensures
        n / radix < n,
        n / radix * radix + n % radix == n,
        n % radix < radix,
{
    assert(n / radix < n) by (nonlinear_arith)
        requires
            n >= radix,
            radix >= 2,
    ;
    assert(n / radix * radix + n % radix == n && n % radix < radix) by (nonlinear_arith)
        requires
            radix >= 2,
    ;
}

/// A digit character reads back as the digit it shows.
pub proof fn lemma_digit_char(d: nat, radix: nat)
    requires
        d < radix <= 16,
    ensures
        digit_value(digit_char(d), radix) == Some(d),
{
}

/// Writing a number and reading it back in the same base gives the number.
pub proof fn lemma_number_text(n: nat, radix: nat)
    requires
        2 <= radix <= 16,
    ensures
        number_text(n, radix).len() > 0,
        all_digits(number_text(n, radix), radix),
        digits_value(number_text(n, radix), radix) == n,
    decreases n,
{
    if n < radix {
        lemma_digit_char(n, radix);
        let t = number_text(n, radix);
        assert(t.drop_last() =~= Seq::<char>::empty());
        assert(digits_value(Seq::<char>::empty(), radix) == 0);
        assert(0 * radix == 0);
        assert(t.last() == digit_char(n));
    } else {
        let q = n / radix;
        let r = n % radix;
        lemma_quotient_smaller(n, radix);
        lemma_number_text(q, radix);
        lemma_digit_char(r, radix);
        let t = number_text(n, radix);
        let p = number_text(q, radix);
        assert(t.drop_last() =~= p);
        assert forall|i: int| 0 <= i < t.len() implies (#[trigger] digit_value(
            t[i],
            radix,
        )) is Some by {
            if i < p.len() {
                assert(t[i] == p[i]);
            }
        }
    }
}

/// A number written in base `radix` parses back to itself whenever it fits the limit.
pub proof fn law_number_round_trip(n: nat, radix: nat, max: nat)
    requires
        2 <= radix <= 16,
        n <= max,
    ensures
        parse_unsigned(number_text(n, radix), radix, max) == Some(n),
{
    lemma_number_text(n, radix);
    let t = number_text(n, radix);
    assert(digit_value(t[0], radix) is Some);
    assert(t[0] != '+');
}

/// Leading zeros do not change the value of a run of digits.
pub proof fn lemma_leading_zeros(k: nat, t: Seq<char>, radix: nat)
    requires
        2 <= radix,
    ensures
        digits_value(Seq::new(k, |i: int| '0') + t, radix) == digits_value(t, radix),
        all_digits(t, radix) ==> all_digits(Seq::new(k, |i: int| '0') + t, radix),
    decreases t.len(), k,
{
    let z = Seq::new(k, |i: int| '0');
    let s = z + t;
    if t.len() == 0 {
        assert(s =~= z);
        if k == 0 {
            assert(z =~= Seq::<char>::empty());
        } else {
            let z1 = Seq::new((k - 1) as nat, |i: int| '0');
            assert(z.drop_last() =~= z1 + Seq::<char>::empty());
            lemma_leading_zeros((k - 1) as nat, Seq::<char>::empty(), radix);
            assert(z1 + Seq::<char>::empty() =~= z1);
            assert(digit_value(z.last(), radix) == Some(0nat));
        }
    } else {
        assert(s.drop_last() =~= z + t.drop_last());
        assert(s.last() == t.last());
        lemma_leading_zeros(k, t.drop_last(), radix);
    }
    if all_digits(t, radix) {
        assert forall|i: int| 0 <= i < s.len() implies (#[trigger] digit_value(
            s[i],
            radix,
        )) is Some by {
            if i >= k {
                assert(s[i] == t[i - k]);
            } else {
                assert(s[i] == '0');
            }
        }
    }
}

/// Appends `c` to `s`.
///
/// Calls `String::push`, which the standard library documents as appending
/// the given `char` to the end of the string.
#[verifier::external_body]
fn push_char(s: &mut String, c: char)
    ensures
        final(s)@ == old(s)@.push(c),
{
    s.push(c);
}

/// The character that shows `d`.
fn digit_to_char(d: u64) -> (c: char)
    requires
        d < 16,
    ensures
        c == digit_char(d as nat),
{
    if d < 10 {
        char_from_code(48 + d as u32)
    } else {
        char_from_code(65 + (d - 10) as u32)
    }
}

/// The ASCII character with code `code`.
fn char_from_code(code: u32) -> (c: char)
    requires
        code < 128,
    ensures
        c == code as char,
{
    let b: u8 = code as u8;
    b as char
}

/// Appends `n` written in base `radix` with upper-case digits.
pub fn push_number(s: &mut String, n: u64, radix: u64)
    requires
        2 <= radix <= 16,
    ensures
        final(s)@ == old(s)@ + number_text(n as nat, radix as nat),
    decreases n,
{
    if n >= radix {
        proof {
            lemma_quotient_smaller(n as nat, radix as nat);
        }
        push_number(s, n / radix, radix);
    }
    let c = digit_to_char(n % radix);
    push_char(s, c);
    proof {
        if n >= radix {
            assert(old(s)@ + number_text(n as nat, radix as nat) =~= old(s)@ + number_text(
                (n / radix) as nat,
                radix as nat,
            ) + seq![c]);
        } else {
            assert(n % radix == n) by (nonlinear_arith)
                requires
                    n < radix,
            ;
            assert(old(s)@ + number_text(n as nat, radix as nat) =~= old(s)@ + seq![c]);
        }
    }
}

/// The number of digits of `n` in base `radix`.
pub fn digit_count(n: u64, radix: u64) -> (res: u64)
    requires
        2 <= radix <= 16,
    ensures
        res == number_text(n as nat, radix as nat).len(),
    decreases n,
{
    if n >= radix {
        proof {
            lemma_quotient_smaller(n as nat, radix as nat);
        }
        let c = digit_count(n / radix, radix);
        proof {
            lemma_number_text_len_bound((n / radix) as nat, radix as nat);
            assert((n / radix) * 2 <= n) by (nonlinear_arith)
                requires
                    radix >= 2,
            ;
        }
        c + 1
    } else {
        1
    }
}

/// A number has at most as many digits as its value plus one.
proof fn lemma_number_text_len_bound(n: nat, radix: nat)
    requires
        2 <= radix,
    ensures
        number_text(n, radix).len() <= n + 1,
    decreases n,
{
    if n >= radix {
        lemma_quotient_smaller(n, radix);
        lemma_number_text_len_bound(n / radix, radix);
    }
}

/// Appends `n` written in base `radix`, with leading zeros up to `width` characters.
pub fn push_padded_number(s: &mut String, n: u64, radix: u64, width: u64)
    requires
        2 <= radix <= 16,
    ensures
        final(s)@ == old(s)@ + padded_number_text(n as nat, radix as nat, width as nat),
{
    let len = digit_count(n, radix);
    let mut i: u64 = len;
    let ghost zeros_len: nat = if width > len {
        (width - len) as nat
    } else {
        0
    };
    while i < width
        invariant
            len <= i,
            i <= width || i == len,
            s@ == old(s)@ + Seq::new((i - len) as nat, |j: int| '0'),
        decreases width - i,
    {
        push_char(s, '0');
        assert(Seq::new((i - len) as nat, |j: int| '0').push('0') =~= Seq::new(
            (i + 1 - len) as nat,
            |j: int| '0',
        ));
        i = i + 1;
    }
    assert(Seq::new((i - len) as nat, |j: int| '0') =~= Seq::new(zeros_len, |j: int| '0'));
    push_number(s, n, radix);
    assert(s@ =~= old(s)@ + padded_number_text(n as nat, radix as nat, width as nat));
}

} // verus!

//! Integer text: the `FromStr` / `from_str_radix` grammar of Rust's
//! integer types, and decimal rendering.

use vstd::prelude::*;
use crate::text::string_push;

verus! {

/// The value of one digit in `radix` (10 or 16; letters either case).
pub open spec fn digit_val(c: char, radix: nat) -> Option<nat> {
    let v: int = if '0' <= c && c <= '9' {
        c as int - '0' as int
    } else if 'a' <= c && c <= 'z' {
        c as int - 'a' as int + 10
    } else if 'A' <= c && c <= 'Z' {
        c as int - 'A' as int + 10
    } else {
        radix as int
    };
    if 0 <= v < radix {
        Some(v as nat)
    } else {
        None
    }
}

/// The value of a digit string; `None` when a character is not a digit.
/// The empty string is 0.
pub open spec fn digits_value(s: Seq<char>, radix: nat) -> Option<nat>
    decreases s.len(),
{
    if s.len() == 0 {
        Some(0)
    } else {
        match (digits_value(s.drop_last(), radix), digit_val(s.last(), radix)) {
            (Some(v), Some(d)) => Some(v * radix + d),
            _ => None,
        }
    }
}

/// `u32::from_str_radix`: an optional `+`, then at least one digit, and
/// a value that fits.
pub open spec fn parse_u32_spec(s: Seq<char>, radix: nat) -> Option<u32> {
    if s.len() == 0 {
        None
    } else if (s[0] == '+' || s[0] == '-') && s.len() == 1 {
        None
    } else {
        let d = if s[0] == '+' {
            s.drop_first()
        } else {
            s
        };
        match digits_value(d, radix) {
            Some(v) => if v <= u32::MAX {
                Some(v as u32)
            } else {
                None
            },
            None => None,
        }
    }
}

/// `i32::from_str`: an optional sign, then at least one decimal digit,
/// and a value that fits.
pub open spec fn parse_i32_spec(s: Seq<char>) -> Option<i32> {
    if s.len() == 0 {
        None
    } else if (s[0] == '+' || s[0] == '-') && s.len() == 1 {
        None
    } else {
        let d = if s[0] == '+' || s[0] == '-' {
            s.drop_first()
        } else {
            s
        };
        match digits_value(d, 10) {
            Some(v) => {
                let x: int = if s[0] == '-' {
                    -v
                } else {
                    v as int
                };
                if i32::MIN <= x <= i32::MAX {
                    Some(x as i32)
                } else {
                    None
                }
            },
            None => None,
        }
    }
}

proof fn lemma_digits_prefix(s: Seq<char>, radix: nat, k: int)
    requires
        radix >= 1,
        0 <= k <= s.len(),
        digits_value(s, radix) is Some,
    ensures
        digits_value(s.take(k), radix) is Some,
        digits_value(s.take(k), radix)->0 <= digits_value(s, radix)->0,
    decreases s.len(),
{
    if k == s.len() {
        assert(s.take(k) =~= s);
    } else {
        let d = s.drop_last();
        assert(d.take(k) =~= s.take(k));
        lemma_digits_prefix(d, radix, k);
        let v = digits_value(d, radix)->0;
        assert(v <= v * radix) by (nonlinear_arith)
            requires
                radix >= 1,
        ;
    }
}

fn digit_of(c: char, radix: u32) -> (r: Option<u32>)
    requires
        radix == 10 || radix == 16,
    ensures
        r matches Some(d) ==> digit_val(c, radix as nat) == Some(d as nat),
        r is None ==> digit_val(c, radix as nat) is None,
{
    let v: u32 = if '0' <= c && c <= '9' {
        (c as u32) - ('0' as u32)
    } else if 'a' <= c && c <= 'z' {
        (c as u32) - ('a' as u32) + 10
    } else if 'A' <= c && c <= 'Z' {
        (c as u32) - ('A' as u32) + 10
    } else {
        radix
    };
    if v < radix {
        Some(v)
    } else {
        None
    }
}

/// The value of the digits of `s` from index `from`, when it is at most
/// `limit`; `None` when a character is not a digit or the value exceeds
/// `limit`.
fn digits_upto(s: &str, from: usize, radix: u32, limit: u64) -> (r: Option<u64>)
    requires
        radix == 10 || radix == 16,
        from <= s@.len(),
        limit <= 0x1_0000_0000,
    ensures
        r matches Some(v) ==> digits_value(s@.skip(from as int), radix as nat) == Some(v as nat)
            && v <= limit,
        r is None ==> digits_value(s@.skip(from as int), radix as nat) is None || digits_value(
            s@.skip(from as int),
            radix as nat,
        )->0 > limit,
{
    let n = s.unicode_len();
    let ghost d = s@.skip(from as int);
    let mut acc: u64 = 0;
    let mut i: usize = from;
    while i < n
        invariant
            from <= i <= n,
            n == s@.len(),
            d == s@.skip(from as int),
            radix == 10 || radix == 16,
            limit <= 0x1_0000_0000,
            acc <= limit,
            digits_value(d.take(i - from), radix as nat) == Some(acc as nat),
        decreases n - i,
    {
        let c = s.get_char(i);
        assert(d.take(i - from + 1).drop_last() =~= d.take(i - from));
        assert(d.take(i - from + 1).last() == c);
        match digit_of(c, radix) {
            None => {
                proof {
                    if digits_value(d, radix as nat) is Some {
                        lemma_digits_prefix(d, radix as nat, i - from + 1);
                    }
                }
                return None;
            },
            Some(dv) => {
                assert(acc * (radix as u64) + (dv as u64) <= 0x1_0000_0000 * 16 + 16) by (nonlinear_arith)
                    requires
                        acc <= 0x1_0000_0000,
                        radix <= 16,
                        dv < radix,
                ;
                let next = acc * (radix as u64) + (dv as u64);
                if next > limit {
                    proof {
                        if digits_value(d, radix as nat) is Some {
                            lemma_digits_prefix(d, radix as nat, i - from + 1);
                        }
                    }
                    return None;
                }
                acc = next;
            },
        }
        i += 1;
    }
    assert(d.take(i - from) =~= d);
    Some(acc)
}

/// `u32::from_str_radix(s, radix)` for radix 10 or 16.
pub fn parse_u32_radix(s: &str, radix: u32) -> (r: Option<u32>)
    requires
        radix == 10 || radix == 16,
    ensures
        r == parse_u32_spec(s@, radix as nat),
{
    let n = s.unicode_len();
    if n == 0 {
        return None;
    }
    let c0 = s.get_char(0);
    if (c0 == '+' || c0 == '-') && n == 1 {
        return None;
    }
    let from: usize = if c0 == '+' {
        1
    } else {
        0
    };
    assert(s@.skip(from as int) =~= if s@[0] == '+' {
        s@.drop_first()
    } else {
        s@
    });
    match digits_upto(s, from, radix, 0xffff_ffff) {
        Some(v) => Some(v as u32),
        None => None,
    }
}

/// `i32::from_str`.
pub fn parse_i32(s: &str) -> (r: Option<i32>)
    ensures
        r == parse_i32_spec(s@),
{
    let n = s.unicode_len();
    if n == 0 {
        return None;
    }
    let c0 = s.get_char(0);
    if (c0 == '+' || c0 == '-') && n == 1 {
        return None;
    }
    let neg = c0 == '-';
    let from: usize = if c0 == '+' || c0 == '-' {
        1
    } else {
        0
    };
    assert(s@.skip(from as int) =~= if s@[0] == '+' || s@[0] == '-' {
        s@.drop_first()
    } else {
        s@
    });
    let limit: u64 = if neg {
        0x8000_0000
    } else {
        0x7fff_ffff
    };
    match digits_upto(s, from, 10, limit) {
        Some(v) => {
            if neg {
                if v == 0x8000_0000 {
                    Some(i32::MIN)
                } else {
                    Some(-(v as i32))
                }
            } else {
                Some(v as i32)
            }
        },
        None => None,
    }
}

/// The decimal digit character for `d < 10`.
pub open spec fn digit_char(d: nat) -> char {
    if d == 0 {
        '0'
    } else if d == 1 {
        '1'
    } else if d == 2 {
        '2'
    } else if d == 3 {
        '3'
    } else if d == 4 {
        '4'
    } else if d == 5 {
        '5'
    } else if d == 6 {
        '6'
    } else if d == 7 {
        '7'
    } else if d == 8 {
        '8'
    } else {
        '9'
    }
}

/// The decimal digits of `n`, most significant first.
pub open spec fn nat_digits(n: nat) -> Seq<char>
    decreases n,
{
    if n < 10 {
        seq![digit_char(n)]
    } else {
        nat_digits(n / 10).push(digit_char(n % 10))
    }
}

/// `n` in decimal, with a leading `-` when negative (the `Display` of
/// Rust's integers).
pub open spec fn decimal(n: int) -> Seq<char> {
    if n < 0 {
        seq!['-'] + nat_digits((-n) as nat)
    } else {
        nat_digits(n as nat)
    }
}

fn digit_char_exec(d: u64) -> (c: char)
    requires
        d < 10,
    ensures
        c == digit_char(d as nat),
{
    if d == 0 {
        '0'
    } else if d == 1 {
        '1'
    } else if d == 2 {
        '2'
    } else if d == 3 {
        '3'
    } else if d == 4 {
        '4'
    } else if d == 5 {
        '5'
    } else if d == 6 {
        '6'
    } else if d == 7 {
        '7'
    } else if d == 8 {
        '8'
    } else {
        '9'
    }
}

fn push_digits(out: &mut String, n: u64)
    ensures
        final(out)@ == old(out)@ + nat_digits(n as nat),
    decreases n,
{
    if n >= 10 {
        push_digits(out, n / 10);
    }
    string_push(out, digit_char_exec(n % 10));
    proof {
        if n >= 10 {
            assert(old(out)@ + nat_digits(n as nat) =~= old(out)@ + nat_digits((n / 10) as nat) + seq![
                digit_char((n % 10) as nat),
            ]);
        } else {
            assert(old(out)@ + nat_digits(n as nat) =~= old(out)@ + seq![digit_char((n % 10) as nat)]);
        }
    }
}

/// `v` in decimal.
pub fn format_i64(v: i64) -> (r: String)
    ensures
        r@ == decimal(v as int),
{
    let mut out = String::new();
    if v < 0 {
        string_push(&mut out, '-');
        let m: u64 = if v == i64::MIN {
            0x8000_0000_0000_0000
        } else {
            (-v) as u64
        };
        push_digits(&mut out, m);
    } else {
        push_digits(&mut out, v as u64);
    }
    out
}


/// `usize::from_str`: an optional `+`, then at least one decimal digit,
/// and a value that fits.
pub open spec fn parse_usize_spec(s: Seq<char>) -> Option<usize> {
    if s.len() == 0 {
        None
    } else if (s[0] == '+' || s[0] == '-') && s.len() == 1 {
        None
    } else {
        let d = if s[0] == '+' {
            s.drop_first()
        } else {
            s
        };
        match digits_value(d, 10) {
            Some(v) => if v <= usize::MAX {
                Some(v as usize)
            } else {
                None
            },
            None => None,
        }
    }
}

/// `usize::from_str`.
pub fn parse_usize(s: &str) -> (r: Option<usize>)
    ensures
        r == parse_usize_spec(s@),
{
    let n = s.unicode_len();
    if n == 0 {
        return None;
    }
    let c0 = s.get_char(0);
    if (c0 == '+' || c0 == '-') && n == 1 {
        return None;
    }
    let from: usize = if c0 == '+' {
        1
    } else {
        0
    };
    let ghost d = s@.skip(from as int);
    assert(d =~= if s@[0] == '+' {
        s@.drop_first()
    } else {
        s@
    });
    let limit: u128 = usize::MAX as u128;
    let mut acc: u128 = 0;
    let mut i: usize = from;
    while i < n
        invariant
            from <= i <= n,
            n == s@.len(),
            d == s@.skip(from as int),
            limit == usize::MAX,
            acc <= limit,
            digits_value(d.take(i - from), 10) == Some(acc as nat),
            parse_usize_spec(s@) == match digits_value(d, 10) {
                Some(v) => if v <= usize::MAX {
                    Some(v as usize)
                } else {
                    None
                },
                None => None,
            },
        decreases n - i,
    {
        let c = s.get_char(i);
        assert(d.take(i - from + 1).drop_last() =~= d.take(i - from));
        assert(d.take(i - from + 1).last() == c);
        match digit_of(c, 10) {
            None => {
                proof {
                    if digits_value(d, 10) is Some {
                        lemma_digits_prefix(d, 10, i - from + 1);
                    }
                }
                return None;
            },
            Some(dv) => {
                assert(acc * 10 + (dv as u128) <= 0x1_0000_0000_0000_0000u128 * 10 + 10) by (nonlinear_arith)
                    requires
                        acc <= 0xffff_ffff_ffff_ffffu128,
                        dv < 10,
                ;
                let next = acc * 10 + (dv as u128);
                if next > limit {
                    proof {
                        if digits_value(d, 10) is Some {
                            lemma_digits_prefix(d, 10, i - from + 1);
                        }
                    }
                    return None;
                }
                acc = next;
            },
        }
        i += 1;
    }
    assert(d.take(i - from) =~= d);
    Some(acc as usize)
}

} // verus!

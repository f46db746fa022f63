//! Parsing of unsigned numbers in a given radix, as `usize::from_str_radix`
//! does it.
use vstd::prelude::*;

verus! {

/// The value of the digit `c` in radix `radix` (`char::to_digit`): `0`-`9`
/// are 0-9 and ASCII letters are 10-35, either case; `None` when the value
/// is not below `radix`.
pub open spec fn digit_value(c: char, radix: nat) -> Option<nat> {
    let v: int = if '0' <= c && c <= '9' {
        c as int - '0' as int
    } else if 'a' <= c && c <= 'z' {
        c as int - 'a' as int + 10
    } else if 'A' <= c && c <= 'Z' {
        c as int - 'A' as int + 10
    } else {
        36
    };
    if v < radix {
        Some(v as nat)
    } else {
        None
    }
}

/// The value of the digits `d` in radix `radix`, most significant first, or
/// `None` when some character is not a digit of the radix.
pub open spec fn digits_value(d: Seq<char>, radix: nat) -> Option<nat>
    decreases d.len(),
{
    if d.len() == 0 {
        Some(0)
    } else {
        match digits_value(d.drop_last(), radix) {
            Some(p) => match digit_value(d.last(), radix) {
                Some(v) => Some(p * radix + v),
                None => None,
            },
            None => None,
        }
    }
}

/// `usize::from_str_radix(s, radix)` seen as an `Option`: an optional `+`
/// followed by at least one digit of the radix, whose value fits in a `usize`.
pub open spec fn parse_radix(s: Seq<char>, radix: nat) -> Option<usize> {
    if s.len() == 0 {
        None
    } else if (s[0] == '+' || s[0] == '-') && s.len() == 1 {
        None
    } else {
        let d = if s[0] == '+' { s.drop_first() } else { s };
        match digits_value(d, radix) {
            Some(v) => if v <= usize::MAX {
                Some(v as usize)
            } else {
                None
            },
            None => None,
        }
    }
}

/// Exec form of [`digit_value`].
fn digit_of(c: char, radix: usize) -> (r: Option<usize>)
    requires
        2 <= radix <= 36,
    ensures
        r matches Some(v) ==> digit_value(c, radix as nat) == Some(v as nat),
        r is None ==> digit_value(c, radix as nat) is None,
{
    let v: u32 = if '0' <= c && c <= '9' {
        (c as u32) - ('0' as u32)
    } else if 'a' <= c && c <= 'z' {
        (c as u32) - ('a' as u32) + 10
    } else if 'A' <= c && c <= 'Z' {
        (c as u32) - ('A' as u32) + 10
    } else {
        36
    };
    if (v as usize) < radix {
        Some(v as usize)
    } else {
        None
    }
}

/// Exec form of [`parse_radix`] (`usize::from_str_radix`) over characters.
pub fn parse_radix_chars(s: &[char], radix: usize) -> (r: Option<usize>)
    requires
        2 <= radix <= 36,
    ensures
        r == parse_radix(s@, radix as nat),
{
    if s.len() == 0 {
        return None;
    }
    if (s[0] == '+' || s[0] == '-') && s.len() == 1 {
        return None;
    }
    let start: usize = if s[0] == '+' { 1 } else { 0 };
    let ghost d = if s@[0] == '+' { s@.drop_first() } else { s@ };
    assert(d =~= s@.subrange(start as int, s@.len() as int));
    let mut acc: usize = 0;
    let mut overflow = false;
    let mut k: usize = start;
    while k < s.len()
        invariant
            start <= k <= s@.len(),
            2 <= radix <= 36,
            d == s@.subrange(start as int, s@.len() as int),
            s@.len() > 0,
            !((s@[0] == '+' || s@[0] == '-') && s@.len() == 1),
            d == (if s@[0] == '+' { s@.drop_first() } else { s@ }),
            digits_value(s@.subrange(start as int, k as int), radix as nat) is Some,
            !overflow ==> digits_value(s@.subrange(start as int, k as int), radix as nat) == Some(acc as nat),
            overflow ==> digits_value(s@.subrange(start as int, k as int), radix as nat)->0 > usize::MAX,
        decreases s.len() - k,
    {
        let ghost prefix = s@.subrange(start as int, k as int);
        let ghost next = s@.subrange(start as int, k + 1);
        assert(next.drop_last() =~= prefix);
        assert(next.last() == s@[k as int]);
        match digit_of(s[k], radix) {
            None => {
                proof {
                    assert(d[(k - start) as int] == s@[k as int]);
                    lemma_invalid_digit_spoils(d, radix as nat, (k - start) as nat);
                }
                return None;
            },
            Some(v) => {
                let ghost pv = digits_value(prefix, radix as nat)->0;
                proof {
                    assert(pv * radix >= pv) by (nonlinear_arith)
                        requires
                            radix >= 2,
                    ;
                }
                if !overflow {
                    match acc.checked_mul(radix) {
                        Some(m) => match m.checked_add(v) {
                            Some(n) => {
                                acc = n;
                            },
                            None => {
                                overflow = true;
                            },
                        },
                        None => {
                            overflow = true;
                        },
                    }
                }
            },
        }
        k += 1;
    }
    assert(s@.subrange(start as int, s@.len() as int) =~= d);
    if overflow {
        None
    } else {
        Some(acc)
    }
}

/// A character that is no digit makes every longer prefix fail too.
proof fn lemma_invalid_digit_spoils(d: Seq<char>, radix: nat, k: nat)
    requires
        k < d.len(),
        digit_value(d[k as int], radix) is None,
    ensures
        digits_value(d, radix) is None,
    decreases d.len(),
{
    if k + 1 < d.len() {
        lemma_invalid_digit_spoils(d.drop_last(), radix, k);
    }
}

} // verus!

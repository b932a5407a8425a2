//! The host grammar of a STUN URI as this library accepts it: a dotted IPv4
//! literal, that is exactly four dot-separated decimal octets, each between
//! 0 and 255. A hostname is not resolved; any other form is rejected.

use vstd::prelude::*;

verus! {

/// A decimal digit character (`'0'` has code point 48, `'9'` has 57).
pub open spec fn is_digit(c: char) -> bool {
    48 <= c as u32 && c as u32 <= 57
}

/// The numeric value of a decimal digit character.
pub open spec fn digit_val(c: char) -> nat
    recommends
        is_digit(c),
{
    (c as u32 - 48) as nat
}

/// Every character of `s` is a decimal digit.
pub open spec fn all_digits(s: Seq<char>) -> bool {
    forall|i: int| 0 <= i < s.len() ==> is_digit(#[trigger] s[i])
}

/// The value of `s` read as a decimal number (0 for the empty string).
pub open spec fn digits_val(s: Seq<char>) -> nat
    decreases s.len(),
{
    if s.len() == 0 {
        0
    } else {
        digits_val(s.drop_last()) * 10 + digit_val(s.last())
    }
}

/// The parts of `s` between dots, in order. A string without a dot is one
/// part; each dot ends a part, so a trailing dot leaves an empty last part.
pub open spec fn split_dots(s: Seq<char>) -> Seq<Seq<char>>
    decreases s.len(),
{
    if s.len() == 0 {
        seq![Seq::<char>::empty()]
    } else if s.last() == '.' {
        split_dots(s.drop_last()).push(Seq::<char>::empty())
    } else {
        let parts = split_dots(s.drop_last());
        parts.update(parts.len() - 1, parts.last().push(s.last()))
    }
}

/// A decimal octet: one or more digits whose value is at most 255.
pub open spec fn is_octet(s: Seq<char>) -> bool {
    s.len() >= 1 && all_digits(s) && digits_val(s) <= 255
}

/// The four octet values of a dotted IPv4 literal, or `None` where `s` is
/// not exactly four dot-separated decimal octets.
pub open spec fn spec_ipv4(s: Seq<char>) -> Option<(u8, u8, u8, u8)> {
    let parts = split_dots(s);
    if parts.len() == 4 && is_octet(parts[0]) && is_octet(parts[1]) && is_octet(parts[2])
        && is_octet(parts[3]) {
        Some(
            (
                digits_val(parts[0]) as u8,
                digits_val(parts[1]) as u8,
                digits_val(parts[2]) as u8,
                digits_val(parts[3]) as u8,
            ),
        )
    } else {
        None
    }
}

pub proof fn lemma_split_dots_nonempty(s: Seq<char>)
    ensures
        split_dots(s).len() >= 1,
    decreases s.len(),
{
    if s.len() > 0 {
        lemma_split_dots_nonempty(s.drop_last());
    }
}

/// Every character of a string whose dot-separated parts are all digit
/// strings is itself a digit or a dot.
pub proof fn lemma_split_dots_chars(s: Seq<char>)
    requires
        forall|j: int| 0 <= j < split_dots(s).len() ==> all_digits(#[trigger] split_dots(s)[j]),
    ensures
        forall|i: int| 0 <= i < s.len() ==> is_digit(#[trigger] s[i]) || s[i] == '.',
    decreases s.len(),
{
    if s.len() > 0 {
        let t = s.drop_last();
        let c = s.last();
        lemma_split_dots_nonempty(t);
        let parts = split_dots(t);
        if c == '.' {
            assert forall|j: int| 0 <= j < parts.len() implies all_digits(#[trigger] parts[j]) by {
                assert(split_dots(s)[j] == parts[j]);
                assert(all_digits(split_dots(s)[j]));
            }
        } else {
            let k = parts.len() - 1;
            assert(split_dots(s) == parts.update(k, parts.last().push(c)));
            assert(all_digits(split_dots(s)[k]));
            assert(split_dots(s)[k] == parts[k].push(c));
            assert(is_digit(c)) by {
                assert(parts[k].push(c)[parts[k].len() as int] == c);
                assert(is_digit(parts[k].push(c)[parts[k].len() as int]));
            }
            assert forall|j: int| 0 <= j < parts.len() implies all_digits(#[trigger] parts[j]) by {
                if j < k {
                    assert(split_dots(s)[j] == parts[j]);
                    assert(all_digits(split_dots(s)[j]));
                } else {
                    assert forall|i: int|
                        0 <= i < parts[k].len() implies is_digit(#[trigger] parts[k][i]) by {
                        assert(parts[k][i] == parts[k].push(c)[i]);
                        assert(is_digit(parts[k].push(c)[i]));
                    }
                }
            }
        }
        lemma_split_dots_chars(t);
        assert forall|i: int| 0 <= i < s.len() implies is_digit(#[trigger] s[i]) || s[i] == '.' by {
            if i < t.len() {
                assert(s[i] == t[i]);
            } else {
                assert(s[i] == c);
            }
        }
    }
}

/// A string accepted as a dotted IPv4 literal is nonempty and made of
/// digits and dots alone.
pub proof fn lemma_ipv4_chars(s: Seq<char>)
    requires
        spec_ipv4(s) is Some,
    ensures
        s.len() >= 1,
        forall|i: int| 0 <= i < s.len() ==> is_digit(#[trigger] s[i]) || s[i] == '.',
{
    lemma_split_dots_chars(s);
}

/// Reads one dot-separated part as a decimal octet.
fn parse_octet(seg: &Vec<char>) -> (r: Option<u8>)
    ensures
        r == if is_octet(seg@) {
            Some(digits_val(seg@) as u8)
        } else {
            None::<u8>
        },
{
    let n = seg.len();
    if n == 0 {
        return None;
    }
    let mut val: u32 = 0;
    let mut i: usize = 0;
    while i < n
        invariant
            0 <= i <= n,
            n == seg@.len(),
            all_digits(seg@.take(i as int)),
            val == if digits_val(seg@.take(i as int)) <= 256 {
                digits_val(seg@.take(i as int))
            } else {
                256nat
            },
        decreases n - i,
    {
        let c = seg[i];
        let u = c as u32;
        if u < 48 || u > 57 {
            assert(!all_digits(seg@));
            return None;
        }
        proof {
            assert(seg@.take(i + 1).drop_last() =~= seg@.take(i as int));
            assert(seg@.take(i + 1).last() == seg@[i as int]);
            assert(all_digits(seg@.take(i + 1))) by {
                assert(forall|j: int|
                    0 <= j < i ==> seg@.take(i + 1)[j] == #[trigger] seg@.take(i as int)[j]);
            }
        }
        val = val * 10 + (u - 48);
        if val > 256 {
            val = 256;
        }
        i += 1;
    }
    proof {
        assert(seg@.take(n as int) =~= seg@);
    }
    if val > 255 {
        None
    } else {
        Some(val as u8)
    }
}

/// Reads `h` as a dotted IPv4 literal: exactly four dot-separated decimal
/// octets. Returns their values, or `None` on any other form.
pub fn parse_ipv4(h: &str) -> (r: Option<(u8, u8, u8, u8)>)
    ensures
        r == spec_ipv4(h@),
{
    let len = h.unicode_len();
    let mut segs: Vec<Vec<char>> = Vec::new();
    segs.push(Vec::new());
    let mut i: usize = 0;
    while i < len
        invariant
            0 <= i <= len,
            len == h@.len(),
            segs@.len() == split_dots(h@.take(i as int)).len(),
            forall|j: int|
                0 <= j < segs@.len() ==> #[trigger] segs@[j]@ == split_dots(h@.take(i as int))[j],
        decreases len - i,
    {
        let c = h.get_char(i);
        proof {
            assert(h@.take(i + 1).drop_last() =~= h@.take(i as int));
            assert(h@.take(i + 1).last() == h@[i as int]);
            lemma_split_dots_nonempty(h@.take(i as int));
        }
        if c == '.' {
            segs.push(Vec::new());
        } else {
            let k = segs.len() - 1;
            segs[k].push(c);
            proof {
                let parts = split_dots(h@.take(i as int));
                assert(split_dots(h@.take(i + 1)) == parts.update(
                    parts.len() - 1,
                    parts.last().push(c),
                ));
            }
        }
        i += 1;
    }
    proof {
        assert(h@.take(len as int) =~= h@);
    }
    if segs.len() != 4 {
        return None;
    }
    let o0 = parse_octet(&segs[0]);
    let o1 = parse_octet(&segs[1]);
    let o2 = parse_octet(&segs[2]);
    let o3 = parse_octet(&segs[3]);
    match (o0, o1, o2, o3) {
        (Some(a), Some(b), Some(c), Some(d)) => Some((a, b, c, d)),
        _ => None,
    }
}

} // verus!

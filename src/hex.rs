//! Map identifiers are hexadecimal numbers that fit in 32 bits.
use vstd::prelude::*;
use vstd::string::*;

verus! {

pub open spec fn is_hex_digit(c: char) -> bool {
    ('0' <= c && c <= '9') || ('a' <= c && c <= 'f') || ('A' <= c && c <= 'F')
}

pub open spec fn hex_digit_value(c: char) -> nat {
    if '0' <= c && c <= '9' {
        (c as nat - '0' as nat) as nat
    } else if 'a' <= c && c <= 'f' {
        (c as nat - 'a' as nat + 10) as nat
    } else {
        (c as nat - 'A' as nat + 10) as nat
    }
}

/// The number that the hexadecimal digits `ds` spell, most significant first.
pub open spec fn hex_value(ds: Seq<char>) -> nat
    decreases ds.len(),
{
    if ds.len() == 0 {
        0
    } else {
        hex_value(ds.drop_last()) * 16 + hex_digit_value(ds.last())
    }
}

/// The digits of an identifier: a single leading `+` is allowed.
pub open spec fn key_digits(s: Seq<char>) -> Seq<char> {
    if s.len() > 0 && s[0] == '+' {
        s.drop_first()
    } else {
        s
    }
}

/// The key an identifier denotes, as `u32::from_str_radix(s, 16)` reads it:
/// present when there is at least one digit, every digit is hexadecimal and
/// the value fits in 32 bits.
pub open spec fn hex_key(s: Seq<char>) -> Option<u32> {
    let ds = key_digits(s);
    if ds.len() > 0 && (forall|i: int| 0 <= i < ds.len() ==> is_hex_digit(#[trigger] ds[i]))
        && hex_value(ds) <= u32::MAX {
        Some(hex_value(ds) as u32)
    } else {
        None
    }
}

proof fn lemma_hex_value_prefix(ds: Seq<char>, i: int)
    requires
        0 <= i <= ds.len(),
    ensures
        hex_value(ds.take(i)) <= hex_value(ds),
    decreases ds.len() - i,
{
    if i < ds.len() {
        lemma_hex_value_prefix(ds, i + 1);
        assert(ds.take(i + 1).drop_last() =~= ds.take(i));
    } else {
        assert(ds.take(i) =~= ds);
    }
}

/// Parses a map identifier into its numeric key.
pub fn parse_hex_key(id: &str) -> (r: Option<u32>)
    ensures
        r == hex_key(id@),
{
    let n = id.unicode_len();
    let start: usize = if n > 0 && id.get_char(0) == '+' { 1 } else { 0 };
    let ghost ds = key_digits(id@);
    assert(ds =~= id@.subrange(start as int, n as int));
    if start == n {
        return None;
    }
    let mut acc: u64 = 0;
    let mut j: usize = start;
    while j < n
        invariant
            start <= j <= n,
            n == id@.len(),
            ds == key_digits(id@),
            ds =~= id@.subrange(start as int, n as int),
            forall|k: int| 0 <= k < j - start ==> is_hex_digit(#[trigger] ds[k]),
            acc as nat == hex_value(ds.take(j - start)),
            acc <= u32::MAX,
        decreases n - j,
    {
        let c = id.get_char(j);
        assert(c == ds[j - start]);
        let d: u64 = if '0' <= c && c <= '9' {
            (c as u64) - ('0' as u64)
        } else if 'a' <= c && c <= 'f' {
            (c as u64) - ('a' as u64) + 10
        } else if 'A' <= c && c <= 'F' {
            (c as u64) - ('A' as u64) + 10
        } else {
            assert(!is_hex_digit(ds[j - start]));
            return None;
        };
        assert(d as nat == hex_digit_value(c));
        assert(ds.take(j + 1 - start).last() == c);
        assert(ds.take(j + 1 - start).drop_last() =~= ds.take(j - start));
        let next: u64 = acc * 16 + d;
        assert(next as nat == hex_value(ds.take(j + 1 - start)));
        if next > 0xffff_ffff {
            proof {
                lemma_hex_value_prefix(ds, j + 1 - start);
            }
            return None;
        }
        acc = next;
        j = j + 1;
    }
    assert(ds.take(j - start) =~= ds);
    Some(acc as u32)
}

} // verus!

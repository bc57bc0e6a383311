use vstd::prelude::*;

use crate::can::CanId;

verus! {

/// Why a filter identifier given as text was refused; each variant holds the
/// position of the offending text in the input.
#[derive(Clone, Copy, Debug, PartialEq, Eq, Structural)]
pub enum FilterIdError {
    /// The text does not start with `0x`.
    MissingHexPrefix(usize),
    /// What follows `0x` is not a hexadecimal number that fits in 32 bits.
    InvalidHex(usize),
}

/// The value of `c` as a digit in `radix`, if it is one: `0`-`9`, then
/// `a`-`z` or `A`-`Z` for ten and up.
pub open spec fn digit_value(c: char, radix: u32) -> Option<nat> {
    let code = c as u32 as int;
    let v: int = if '0' as u32 <= code <= '9' as u32 {
        code - '0' as u32
    } else if 'a' as u32 <= code <= 'z' as u32 {
        code - 'a' as u32 + 10
    } else if 'A' as u32 <= code <= 'Z' as u32 {
        code - 'A' as u32 + 10
    } else {
        36
    };
    if v < radix {
        Some(v as nat)
    } else {
        None
    }
}

/// The number that a string of digits of `radix` writes, most significant first.
pub open spec fn digits_value(s: Seq<char>, radix: u32) -> nat
    decreases s.len(),
{
    if s.len() == 0 {
        0
    } else {
        (digits_value(s.drop_last(), radix) * radix + digit_value(s.last(), radix)->0) as nat
    }
}

/// A `u32` written in `radix`: an optional `+`, then one or more digits, of a
/// value that fits in 32 bits.
pub open spec fn parse_u32_radix(s: Seq<char>, radix: u32) -> Option<u32> {
    let digits = if s.len() > 0 && s[0] == '+' {
        s.skip(1)
    } else {
        s
    };
    if digits.len() > 0 && (forall|i: int| 0 <= i < digits.len() ==> #[trigger] digit_value(digits[i], radix) is Some)
        && digits_value(digits, radix) <= u32::MAX {
        Some(digits_value(digits, radix) as u32)
    } else {
        None
    }
}

/// What follows a leading `0x`, if there is one.
pub open spec fn after_hex_prefix(s: Seq<char>) -> Option<Seq<char>> {
    if s.len() >= 2 && s[0] == '0' && s[1] == 'x' {
        Some(s.skip(2))
    } else {
        None
    }
}

/// The identifier that a filter value stands for: standard up to 11 bits,
/// extended up to 29 bits, none beyond.
pub open spec fn id_for_value(n: u32) -> Option<CanId> {
    if n <= 0x7FF {
        Some(CanId::Standard(n as u16))
    } else if n <= 0x1FFF_FFFF {
        Some(CanId::Extended(n))
    } else {
        None
    }
}

/// The outcome of reading `raw` as hexadecimal filter identifiers, in order:
/// the first text without `0x`, or without a number after it, is refused;
/// values too large for an extended identifier are left out.
pub open spec fn filter_ids_of(raw: Seq<Seq<char>>) -> Result<Seq<CanId>, FilterIdError>
    decreases raw.len(),
{
    if raw.len() == 0 {
        Ok(Seq::empty())
    } else {
        let last = (raw.len() - 1) as usize;
        match filter_ids_of(raw.drop_last()) {
            Err(e) => Err(e),
            Ok(ids) => match after_hex_prefix(raw.last()) {
                None => Err(FilterIdError::MissingHexPrefix(last)),
                Some(digits) => match parse_u32_radix(digits, 16) {
                    None => Err(FilterIdError::InvalidHex(last)),
                    Some(n) => match id_for_value(n) {
                        Some(id) => Ok(ids.push(id)),
                        None => Ok(ids),
                    },
                },
            },
        }
    }
}

/// Relies on `str::strip_prefix`: the rest of `s` when it starts with `prefix`.
#[verifier::external_body]
fn strip_prefix<'a>(s: &'a str, prefix: &str) -> (r: Option<&'a str>)
    ensures
        match r {
            Some(rest) => prefix@.len() <= s@.len() && s@.take(prefix@.len() as int) == prefix@
                && rest@ == s@.skip(prefix@.len() as int),
            None => !(prefix@.len() <= s@.len() && s@.take(prefix@.len() as int) == prefix@),
        },
{
    s.strip_prefix(prefix)
}

/// Relies on `u32::from_str_radix`: an optional `+` and then only digits of
/// `radix`, of a value that fits in a `u32`; anything else is an error.
#[verifier::external_body]
fn u32_from_str_radix(s: &str, radix: u32) -> (r: Option<u32>)
    requires
        2 <= radix <= 36,
    ensures
        r == parse_u32_radix(s@, radix),
{
    u32::from_str_radix(s, radix).ok()
}

/// Relies on `embedded_can::StandardId::MAX`: the largest 11-bit identifier.
#[verifier::external_body]
fn standard_id_max() -> (r: u16)
    ensures
        r == 0x7FF,
{
    embedded_can::StandardId::MAX.as_raw()
}

/// Relies on `embedded_can::ExtendedId::MAX`: the largest 29-bit identifier.
#[verifier::external_body]
fn extended_id_max() -> (r: u32)
    ensures
        r == 0x1FFF_FFFF,
{
    embedded_can::ExtendedId::MAX.as_raw()
}

/// Relies on `embedded_can::StandardId::new`: an identifier exactly for
/// values of at most 11 bits.
#[verifier::external_body]
fn standard_id_new(raw: u16) -> (r: Option<u16>)
    ensures
        r == (if raw <= 0x7FF {
            Some(raw)
        } else {
            None
        }),
{
    embedded_can::StandardId::new(raw).map(|id| id.as_raw())
}

/// Relies on `embedded_can::ExtendedId::new`: an identifier exactly for
/// values of at most 29 bits.
#[verifier::external_body]
fn extended_id_new(raw: u32) -> (r: Option<u32>)
    ensures
        r == (if raw <= 0x1FFF_FFFF {
            Some(raw)
        } else {
            None
        }),
{
    embedded_can::ExtendedId::new(raw).map(|id| id.as_raw())
}

/// Once a prefix of the input is refused, the whole input is refused the same way.
proof fn lemma_error_persists(raw: Seq<Seq<char>>, k: int)
    requires
        0 <= k <= raw.len(),
        filter_ids_of(raw.take(k)) is Err,
    ensures
        filter_ids_of(raw) == filter_ids_of(raw.take(k)),
    decreases raw.len() - k,
{
    if k < raw.len() {
        assert(raw.take(k + 1).drop_last() =~= raw.take(k));
        lemma_error_persists(raw, k + 1);
    } else {
        assert(raw.take(k) =~= raw);
    }
}

/// Reads filter identifiers written as `0x`-prefixed hexadecimal. A value
/// of at most 11 bits becomes a standard identifier, one of at most 29 bits
/// an extended identifier; a larger value is left out.
pub fn parse_filter_ids(raw_ids: Vec<String>) -> (r: Result<Vec<CanId>, FilterIdError>)
    ensures
        match filter_ids_of(raw_ids@.map_values(|s: String| s@)) {
            Ok(ids) => r matches Ok(v) && v@ == ids,
            Err(e) => r == Err::<Vec<CanId>, FilterIdError>(e),
        },
{
    let ghost raw = raw_ids@.map_values(|s: String| s@);
    let mut filter_ids: Vec<CanId> = Vec::new();
    let mut i: usize = 0;
    while i < raw_ids.len()
        invariant
            i <= raw_ids@.len(),
            raw == raw_ids@.map_values(|s: String| s@),
            filter_ids_of(raw.take(i as int)) == Ok::<Seq<CanId>, FilterIdError>(filter_ids@),
        decreases raw_ids@.len() - i,
    {
        proof {
            assert(raw.take(i + 1).drop_last() =~= raw.take(i as int));
            assert(raw.take(i + 1).last() == raw_ids@[i as int]@);
            reveal_strlit("0x");
        }
        let text = raw_ids[i].as_str();
        let digits = match strip_prefix(text, "0x") {
            Some(d) => d,
            None => {
                proof {
                    if text@.len() >= 2 && text@[0] == '0' && text@[1] == 'x' {
                        assert(text@.take(2) =~= "0x"@);
                    }
                    lemma_error_persists(raw, i + 1);
                }
                return Err(FilterIdError::MissingHexPrefix(i));
            },
        };
        proof {
            assert("0x"@.len() == 2);
            assert(text@.take(2)[0] == "0x"@[0] && text@.take(2)[1] == "0x"@[1]);
            assert(after_hex_prefix(text@) == Some(digits@));
        }
        let numeric_filter = match u32_from_str_radix(digits, 16) {
            Some(n) => n,
            None => {
                proof {
                    lemma_error_persists(raw, i + 1);
                }
                return Err(FilterIdError::InvalidHex(i));
            },
        };
        if numeric_filter <= standard_id_max() as u32 {
            if let Some(raw_id) = standard_id_new(numeric_filter as u16) {
                filter_ids.push(CanId::Standard(raw_id));
            }
        } else if numeric_filter <= extended_id_max() {
            if let Some(raw_id) = extended_id_new(numeric_filter) {
                filter_ids.push(CanId::Extended(raw_id));
            }
        }
        i = i + 1;
    }
    assert(raw.take(i as int) =~= raw);
    Ok(filter_ids)
}

} // verus!

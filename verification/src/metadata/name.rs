//! The naming convention of migration units.
//!
//! A unit is named by a three-digit, zero-padded ordinal, any descriptive
//! text, and the suffix `.sql`, as in `003_add_tokens.sql`. The ordinal is
//! the unit's version.

use vstd::prelude::*;
use vstd::string::StrSliceExecFns;

verus! {

/// Whether `c` is one of the decimal digits `0` to `9`.
pub open spec fn is_digit(c: char) -> bool {
    '0' <= c && c <= '9'
}

/// The number that the decimal digit `c` stands for.
pub open spec fn digit_value(c: char) -> int {
    c as int - '0' as int
}

/// Whether `name` ends in `.sql`.
pub open spec fn has_sql_suffix(name: Seq<char>) -> bool {
    &&& name.len() >= 4
    &&& name[name.len() - 4] == '.'
    &&& name[name.len() - 3] == 's'
    &&& name[name.len() - 2] == 'q'
    &&& name[name.len() - 1] == 'l'
}

/// Whether `name` follows the convention: three leading digits and the
/// suffix `.sql`.
pub open spec fn is_unit_name(name: Seq<char>) -> bool {
    &&& has_sql_suffix(name)
    &&& is_digit(name[0])
    &&& is_digit(name[1])
    &&& is_digit(name[2])
}

/// The version that a unit's name carries, if the name follows the
/// convention.
pub open spec fn unit_version(name: Seq<char>) -> Option<int> {
    if is_unit_name(name) {
        Some(100 * digit_value(name[0]) + 10 * digit_value(name[1]) + digit_value(name[2]))
    } else {
        None
    }
}

/// The value of `c` as a decimal digit, or `None` for any other character.
pub fn digit_of(c: char) -> (d: Option<i64>)
    ensures
        d.is_some() == is_digit(c),
        d matches Some(v) ==> v == digit_value(c),
{
    let code: u32 = c as u32;
    if 48 <= code && code <= 57 {
        Some((code - 48) as i64)
    } else {
        None
    }
}

/// Reads the version out of a unit's name. A name that does not follow the
/// convention has no version; the engine passes over such a unit.
pub fn parse_version(name: &str) -> (version: Option<i64>)
    ensures
        version.is_some() == is_unit_name(name@),
        version matches Some(v) ==> unit_version(name@) == Some(v as int),
        version matches Some(v) ==> 0 <= v <= 999,
{
    let len: usize = name.unicode_len();
    if len < 4 {
        return None;
    }
    if name.get_char(len - 4) != '.' || name.get_char(len - 3) != 's' || name.get_char(len - 2)
        != 'q' || name.get_char(len - 1) != 'l' {
        return None;
    }
    match (digit_of(name.get_char(0)), digit_of(name.get_char(1)), digit_of(name.get_char(2))) {
        (Some(hundreds), Some(tens), Some(units)) => Some(100 * hundreds + 10 * tens + units),
        _ => None,
    }
}

} // verus!

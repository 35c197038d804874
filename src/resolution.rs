//! Reading a resolution written as `WIDTHxHEIGHT`.
use vstd::prelude::*;

use crate::error::RresError;
use crate::text::{parse_u16, parse_u16_spec};

verus! {

/// Whether `k` is the position of the first `c` in `s`.
pub open spec fn is_first(s: Seq<char>, c: char, k: int) -> bool {
    0 <= k < s.len() && s[k] == c && forall|j: int| 0 <= j < k ==> s[j] != c
}

/// The resolution that `s` denotes: two 16-bit decimal numbers on either
/// side of its first `x`.
pub open spec fn parse_res_spec(s: Seq<char>) -> Result<(u16, u16), RresError> {
    if exists|k: int| is_first(s, 'x', k) {
        let k = choose|k: int| is_first(s, 'x', k);
        match (parse_u16_spec(s.subrange(0, k)), parse_u16_spec(s.subrange(k + 1, s.len() as int))) {
            (Some(w), Some(h)) => Ok((w, h)),
            _ => Err(RresError::Parse),
        }
    } else {
        Err(RresError::Parse)
    }
}

/// Reads a resolution written as `WIDTHxHEIGHT`, such as `1920x1080`.
pub fn parse_res(s: &str) -> (r: Result<(u16, u16), RresError>)
    ensures
        r == parse_res_spec(s@),
{
    let n = s.unicode_len();
    let mut k: usize = 0;
    while k < n && s.get_char(k) != 'x'
        invariant
            n == s@.len(),
            k <= n,
            forall|j: int| 0 <= j < k ==> s@[j] != 'x',
        decreases n - k,
    {
        k = k + 1;
    }
    if k == n {
        assert(!exists|j: int| is_first(s@, 'x', j));
        return Err(RresError::Parse);
    }
    assert(is_first(s@, 'x', k as int));
    let ghost c = choose|j: int| is_first(s@, 'x', j);
    assert(c == k) by {
        if c < k {
            assert(s@[c] != 'x');
        } else if c > k {
            assert(s@[k as int] != 'x');
        }
    }
    let width = parse_u16(s.substring_char(0, k));
    let height = parse_u16(s.substring_char(k + 1, n));
    match (width, height) {
        (Some(w), Some(h)) => Ok((w, h)),
        _ => Err(RresError::Parse),
    }
}

} // verus!

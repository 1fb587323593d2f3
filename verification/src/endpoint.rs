//! Edge endpoints.
//!
//! An endpoint is written `name` or `name:channel`. The name is everything
//! before the first colon; the channel is a decimal number, optionally led by
//! a plus sign, and is zero when there is no colon.

use vstd::prelude::*;
use vstd::string::*;
use crate::find::{lemma_position_absent, lemma_position_found, position};

verus! {

/// Why an endpoint could not be read.
#[derive(Clone, Copy, Debug, PartialEq, Eq, Structural)]
pub enum EndpointError {
    /// Nothing follows the colon.
    MissingChannel,
    /// The channel holds something other than decimal digits.
    InvalidChannel,
    /// The channel is a number too large for the machine.
    ChannelOverflow,
}

/// Whether `c` is one of the digits `0` to `9`.
pub open spec fn is_digit(c: char) -> bool {
    0x30 <= c as int <= 0x39
}

/// The number that the digit `c` writes.
pub open spec fn digit_value(c: char) -> nat {
    (c as int - 0x30) as nat
}

/// Whether `s` holds digits only.
pub open spec fn all_digits(s: Seq<char>) -> bool {
    forall|i: int| 0 <= i < s.len() ==> is_digit(#[trigger] s[i])
}

/// The number that the decimal digits of `s` write.
pub open spec fn decimal(s: Seq<char>) -> nat
    decreases s.len(),
{
    if s.len() == 0 {
        0
    } else {
        10 * decimal(s.drop_last()) + digit_value(s.last())
    }
}

/// The channel that the text `t` after a colon denotes.
pub open spec fn parse_channel(t: Seq<char>) -> Result<nat, EndpointError> {
    let digits = if t.len() > 0 && t[0] == '+' {
        t.drop_first()
    } else {
        t
    };
    if t.len() == 0 {
        Err(EndpointError::MissingChannel)
    } else if digits.len() == 0 || !all_digits(digits) {
        Err(EndpointError::InvalidChannel)
    } else if decimal(digits) > usize::MAX {
        Err(EndpointError::ChannelOverflow)
    } else {
        Ok(decimal(digits))
    }
}

/// The node name and channel that the endpoint `s` denotes.
pub open spec fn parse_endpoint(s: Seq<char>) -> Result<(Seq<char>, nat), EndpointError> {
    match position(s, ':') {
        None => Ok((s, 0)),
        Some(n) => match parse_channel(s.skip(n + 1)) {
            Ok(channel) => Ok((s.take(n), channel)),
            Err(e) => Err(e),
        },
    }
}

/// A prefix of a digit string writes a number no larger than the whole.
pub proof fn lemma_decimal_prefix(s: Seq<char>, k: int)
    requires
        0 <= k <= s.len(),
    ensures
        decimal(s.take(k)) <= decimal(s),
    decreases s.len() - k,
{
    if k == s.len() {
        assert(s.take(k) =~= s);
    } else {
        assert(s.drop_last().take(k) =~= s.take(k));
        lemma_decimal_prefix(s.drop_last(), k);
    }
}

/// Reads an endpoint into its node name and channel index.
pub fn parse_node_name(n: &str) -> (r: Result<(String, usize), EndpointError>)
    ensures
        match parse_endpoint(n@) {
            Ok((name, channel)) => r matches Ok((rn, rc)) && rn@ == name && rc == channel,
            Err(e) => r == Err::<(String, usize), EndpointError>(e),
        },
{
    let len = n.unicode_len();
    let mut i: usize = 0;
    while i < len && n.get_char(i) != ':'
        invariant
            len == n@.len(),
            i <= len,
            forall|j: int| 0 <= j < i ==> n@[j] != ':',
        decreases len - i,
    {
        i += 1;
    }
    proof {
        if i == len {
            lemma_position_absent(n@, ':');
        } else {
            lemma_position_found(n@, ':', i as int);
        }
    }
    if i == len {
        assert(n@.subrange(0, len as int) =~= n@);
        return Ok((String::from_str(n.substring_char(0, len)), 0));
    }
    let name = String::from_str(n.substring_char(0, i));
    let ghost t = n@.skip(i + 1);
    let start: usize = i + 1;
    if start == len {
        return Err(EndpointError::MissingChannel);
    }
    assert(t[0] == n@[start as int]);
    let from: usize = if n.get_char(start) == '+' {
        start + 1
    } else {
        start
    };
    let ghost digits = n@.skip(from as int);
    assert(digits =~= if t[0] == '+' {
        t.drop_first()
    } else {
        t
    });
    if from == len {
        return Err(EndpointError::InvalidChannel);
    }
    let mut k: usize = from;
    while k < len
        invariant
            len == n@.len(),
            from <= k <= len,
            position(n@, ':') == Some(i as int) && i < len,
            t == n@.skip(i + 1) && t.len() > 0,
            digits == n@.skip(from as int) && digits.len() > 0,
            digits == if t[0] == '+' {
                t.drop_first()
            } else {
                t
            },
            forall|j: int| 0 <= j < k - from ==> is_digit(#[trigger] digits[j]),
        decreases len - k,
    {
        let c = n.get_char(k);
        if !('0' <= c && c <= '9') {
            assert(digits[k - from] == c);
            assert(!is_digit(digits[k - from]));
            return Err(EndpointError::InvalidChannel);
        }
        assert(digits[k - from] == c);
        k += 1;
    }
    assert(all_digits(digits));
    let mut value: usize = 0;
    k = from;
    while k < len
        invariant
            len == n@.len(),
            from <= k <= len,
            position(n@, ':') == Some(i as int) && i < len,
            t == n@.skip(i + 1) && t.len() > 0,
            digits == n@.skip(from as int) && digits.len() > 0,
            digits == if t[0] == '+' {
                t.drop_first()
            } else {
                t
            },
            all_digits(digits),
            value == decimal(digits.take(k - from)),
        decreases len - k,
    {
        let c = n.get_char(k);
        assert(digits[k - from] == c);
        let d: usize = (c as u32 - 0x30) as usize;
        proof {
            let next = digits.take(k - from + 1);
            assert(next.drop_last() =~= digits.take(k - from));
            assert(next.last() == c);
            assert(decimal(next) == 10 * value + d);
            lemma_decimal_prefix(digits, k - from + 1);
        }
        if value > (usize::MAX - d) / 10 {
            return Err(EndpointError::ChannelOverflow);
        }
        value = value * 10 + d;
        k += 1;
    }
    assert(digits.take(len - from) =~= digits);
    Ok((name, value))
}

} // verus!

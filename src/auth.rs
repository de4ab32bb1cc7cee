//! Credentials of a request: an account id and a session token.

use vstd::prelude::*;
use vstd::string::*;

use crate::Error;

verus! {

/// The value of a decimal digit character.
pub open spec fn digit_value(c: char) -> int {
    c as int - '0' as int
}

/// Whether `c` is a decimal digit.
pub open spec fn is_digit(c: char) -> bool {
    '0' <= c <= '9'
}

/// The number that a string of decimal digits spells.
pub open spec fn decimal_value(s: Seq<char>) -> int
    decreases s.len(),
{
    if s.len() == 0 {
        0
    } else {
        decimal_value(s.drop_last()) * 10 + digit_value(s.last())
    }
}

/// Whether `s` spells a number that fits in a `u64`.
pub open spec fn is_u64_text(s: Seq<char>) -> bool {
    &&& s.len() > 0
    &&& forall|i: int| 0 <= i < s.len() ==> is_digit(#[trigger] s[i])
    &&& decimal_value(s) <= u64::MAX
}

/// Reads a number from decimal digits; `None` for anything else or for a
/// number that does not fit in a `u64`.
pub fn parse_u64(s: &str) -> (r: Option<u64>)
    ensures
        is_u64_text(s@) ==> r == Some(decimal_value(s@) as u64),
        !is_u64_text(s@) ==> r is None,
{
    let n = s.unicode_len();
    if n == 0 {
        return None;
    }
    let mut v: u64 = 0;
    let mut i: usize = 0;
    while i < n
        invariant
            n == s@.len(),
            i <= n,
            forall|k: int| 0 <= k < i ==> is_digit(#[trigger] s@[k]),
            v == decimal_value(s@.subrange(0, i as int)),
        decreases n - i,
    {
        let c = s.get_char(i);
        assert(s@.subrange(0, i + 1 as int).drop_last() == s@.subrange(0, i as int));
        if c < '0' || c > '9' {
            return None;
        }
        let d = (c as u32 - '0' as u32) as u64;
        if v > (u64::MAX - d) / 10 {
            proof {
                assert(decimal_value(s@.subrange(0, i + 1 as int)) > u64::MAX);
                lemma_decimal_value_grows(s@, i as int + 1);
            }
            return None;
        }
        v = v * 10 + d;
        i = i + 1;
    }
    assert(s@.subrange(0, n as int) == s@);
    Some(v)
}

proof fn lemma_decimal_value_grows(s: Seq<char>, k: int)
    requires
        0 <= k <= s.len(),
        forall|i: int| 0 <= i < k ==> is_digit(#[trigger] s[i]),
        decimal_value(s.subrange(0, k)) > u64::MAX,
    ensures
        !is_u64_text(s),
    decreases s.len() - k,
{
    if k == s.len() {
        assert(s.subrange(0, k) == s);
    } else if is_digit(s[k]) {
        assert(s.subrange(0, k + 1).drop_last() == s.subrange(0, k));
        assert(decimal_value(s.subrange(0, k + 1)) >= decimal_value(s.subrange(0, k)) * 10);
        lemma_decimal_value_grows(s, k + 1);
    }
}

/// Whether position `i` holds the first colon of `s`.
pub open spec fn first_colon(s: Seq<char>, i: int) -> bool {
    &&& 0 <= i < s.len()
    &&& s[i] == ':'
    &&& forall|j: int| 0 <= j < i ==> s[j] != ':'
}

/// The credentials of a request.
#[derive(Clone, Debug)]
pub struct Auth {
    /// The account making the request.
    pub account: u64,
    /// Its session token.
    pub token: String,
}

impl Auth {
    /// Credentials of `account` with `token`.
    pub fn new(account: u64, token: String) -> (r: Auth)
        ensures
            r.account == account,
            r.token@ == token@,
    {
        Auth { account, token }
    }

    /// Reads credentials written `{account}:{token}`: the account id in
    /// decimal before the first colon, the token after it.
    pub fn parse(raw: &str) -> (r: Result<Auth, Error>)
        ensures
            (forall|i: int| 0 <= i < raw@.len() ==> raw@[i] != ':') ==> r == Err::<Auth, Error>(
                Error::InvalidAuthHeader,
            ),
            forall|i: int|
                #[trigger] first_colon(raw@, i) ==> (is_u64_text(raw@.subrange(0, i)) ==> (r matches Ok(a)
                    && a.account == decimal_value(raw@.subrange(0, i)) as u64 && a.token@ == raw@.subrange(
                    i + 1,
                    raw@.len() as int,
                ))) && (!is_u64_text(raw@.subrange(0, i)) ==> r == Err::<Auth, Error>(
                    Error::InvalidAuthHeader,
                )),
    {
        proof {
            reveal_strlit(":");
        }
        let n = raw.unicode_len();
        let mut i: usize = 0;
        while i < n
            invariant
                n == raw@.len(),
                i <= n,
                forall|j: int| 0 <= j < i ==> raw@[j] != ':',
            ensures
                i <= n,
                i < n ==> raw@[i as int] == ':',
                forall|j: int| 0 <= j < i ==> raw@[j] != ':',
            decreases n - i,
        {
            if raw.get_char(i) == ':' {
                break;
            }
            i = i + 1;
        }
        if i == n {
            return Err(Error::InvalidAuthHeader);
        }
        assert(first_colon(raw@, i as int));
        assert forall|k: int| #[trigger] first_colon(raw@, k) implies k == i by {
            if k < i {
                assert(raw@[k] != ':');
            } else if k > i {
                assert(raw@[i as int] == ':');
            }
        }
        let head = raw.substring_char(0, i);
        let tail = raw.substring_char(i + 1, n);
        match parse_u64(head) {
            Some(account) => Ok(Auth { account, token: String::from_str(tail) }),
            None => Err(Error::InvalidAuthHeader),
        }
    }
}

} // verus!

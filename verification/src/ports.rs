//! Port tokens and port ranges.
//!
//! A port expression is a single decimal token, or several tokens joined by
//! `-`.  Each token must name a port in `1..=65535`; a one-token expression
//! probes a single port, and a two-token expression probes the whole range
//! between the two ports, whichever order they were typed in.

use vstd::prelude::*;
use crate::decimal::dec_digits;
use crate::decimal::digit_char;

verus! {

// ---------------------------------------------------------------------------
// Decimal tokens
// ---------------------------------------------------------------------------

/// `c` is a decimal digit.
pub open spec fn is_digit(c: char) -> bool {
    '0' <= c && c <= '9'
}

/// Numeric value of a digit character.
pub open spec fn digit_val(c: char) -> nat {
    (c as int - '0' as int) as nat
}

/// All characters of `s` are decimal digits.
pub open spec fn all_digits(s: Seq<char>) -> bool {
    forall|i: int| 0 <= i < s.len() ==> is_digit(#[trigger] s[i])
}

/// Value of a digit string read as a base-10 numeral.
pub open spec fn dec_value(s: Seq<char>) -> nat
    decreases s.len(),
{
    if s.len() == 0 {
        0
    } else {
        dec_value(s.drop_last()) * 10 + digit_val(s.last())
    }
}

/// The digit part of a token: an optional leading `+` sign is skipped,
/// as unsigned-integer parsing accepts one.
pub open spec fn digits_of(s: Seq<char>) -> Seq<char> {
    if s.len() > 0 && s[0] == '+' {
        s.drop_first()
    } else {
        s
    }
}

/// The token is a decimal numeral: an optional `+`, then at least one digit.
/// This says nothing about whether the value is representable.
pub open spec fn is_numeral(s: Seq<char>) -> bool {
    digits_of(s).len() > 0 && all_digits(digits_of(s))
}

/// The numeric value a numeral token denotes.
pub open spec fn token_value(s: Seq<char>) -> nat {
    dec_value(digits_of(s))
}

/// The token names a port: it is a numeral whose value lies in `1..=65535`.
pub open spec fn valid_port_token(s: Seq<char>) -> bool {
    is_numeral(s) && 1 <= token_value(s) <= 65535
}

// ---------------------------------------------------------------------------
// Errors
// ---------------------------------------------------------------------------

/// Why a token was rejected as a port.
#[derive(Debug, Clone, PartialEq, Eq)]
pub enum PortError {
    /// The token is not a representable unsigned integer.
    InvalidPort { token: String },
    /// The token parses as an integer but falls outside `1..=65535`.
    PortOutOfRange { token: String },
}

impl PortError {
    /// The offending token the error carries.
    pub open spec fn spec_token(&self) -> Seq<char> {
        match self {
            PortError::InvalidPort { token } => token@,
            PortError::PortOutOfRange { token } => token@,
        }
    }

    /// The printed form of the error: the offending token in backquotes,
    /// and for an out-of-range value the valid bounds.
    pub fn message(&self) -> (r: String)
        ensures
            self is InvalidPort ==> r@ == "`"@ + self.spec_token() + "` isn't a port number"@,
            self is PortOutOfRange ==> r@ == "`"@ + self.spec_token()
                + "` port not in range 1-65535"@,
    {
        let mut s = String::from_str("`");
        match self {
            PortError::InvalidPort { token } => {
                s.append(token.as_str());
                s.append("` isn't a port number");
            },
            PortError::PortOutOfRange { token } => {
                s.append(token.as_str());
                s.append("` port not in range 1-65535");
            },
        }
        s
    }
}

/// `e` is exactly the error that rejecting token `t` must produce: it carries
/// `t`, and its kind tells a non-numeral (or unrepresentable) token apart from
/// a representable value outside `1..=65535`.
pub open spec fn token_error_is(t: Seq<char>, e: PortError) -> bool {
    &&& e.spec_token() == t
    &&& if !is_numeral(t) || token_value(t) > usize::MAX as nat {
        e is InvalidPort
    } else {
        e is PortOutOfRange
    }
}

// ---------------------------------------------------------------------------
// Single-token parsing
// ---------------------------------------------------------------------------

/// The value of a prefix of a digit string never exceeds the value of the
/// whole string.
proof fn lemma_dec_value_prefix(s: Seq<char>, i: int)
    requires
        0 <= i <= s.len(),
    ensures
        dec_value(s.subrange(0, i)) <= dec_value(s),
    decreases s.len() - i,
{
    if i == s.len() {
        assert(s.subrange(0, i) =~= s);
    } else {
        lemma_dec_value_prefix(s, i + 1);
        assert(s.subrange(0, i + 1).drop_last() =~= s.subrange(0, i));
        assert(dec_value(s.subrange(0, i + 1)) == dec_value(s.subrange(0, i)) * 10 + digit_val(
            s.subrange(0, i + 1).last(),
        ));
        assert(dec_value(s.subrange(0, i)) <= dec_value(s.subrange(0, i)) * 10);
    }
}

/// Parse one token as a port number, accepting exactly the ports `1..=65535`.
///
/// A token that is no numeral, or whose value does not fit a machine word, is
/// rejected as `InvalidPort`; a representable value outside `1..=65535` is
/// rejected as `PortOutOfRange`.  Either error carries the token.
pub fn port_in_range(s: &str) -> (r: Result<u16, PortError>)
    ensures
        r is Ok <==> valid_port_token(s@),
        r matches Ok(p) ==> p as nat == token_value(s@),
        r matches Err(e) ==> token_error_is(s@, e),
{
    let len: usize = s.unicode_len();
    let offset: usize = if len > 0 && s.get_char(0) == '+' {
        1
    } else {
        0
    };
    assert(s@.subrange(offset as int, len as int) =~= digits_of(s@));
    if len == offset {
        return Err(PortError::InvalidPort { token: s.to_owned() });
    }
    let mut i: usize = offset;
    let mut acc: usize = 0;
    while i < len
        invariant
            offset <= i <= len,
            len == s@.len(),
            offset <= 1,
            s@.subrange(offset as int, len as int) =~= digits_of(s@),
            len > offset,
            forall|k: int| offset <= k < i ==> is_digit(#[trigger] s@[k]),
            acc as nat == dec_value(s@.subrange(offset as int, i as int)),
        decreases len - i,
    {
        let c = s.get_char(i);
        if c < '0' || c > '9' {
            proof {
                assert(digits_of(s@)[i - offset] == s@[i as int]);
                assert(!is_digit(digits_of(s@)[i - offset]));
            }
            return Err(PortError::InvalidPort { token: s.to_owned() });
        }
        let d: usize = (c as usize) - 48;
        let grown: usize;
        proof {
            assert(s@.subrange(offset as int, i as int + 1).drop_last() =~= s@.subrange(
                offset as int,
                i as int,
            ));
            assert(s@.subrange(offset as int, i as int + 1).last() == s@[i as int]);
        }
        match acc.checked_mul(10) {
            Some(v) => {
                match v.checked_add(d) {
                    Some(w) => {
                        grown = w;
                    },
                    None => {
                        proof {
                            lemma_token_overflow(s@, offset as int, i as int);
                        }
                        return Err(PortError::InvalidPort { token: s.to_owned() });
                    },
                }
            },
            None => {
                proof {
                    assert(acc * 10 + digit_val(s@[i as int]) > usize::MAX);
                    lemma_token_overflow(s@, offset as int, i as int);
                }
                return Err(PortError::InvalidPort { token: s.to_owned() });
            },
        }
        acc = grown;
        i = i + 1;
    }
    assert(s@.subrange(offset as int, i as int) =~= digits_of(s@));
    assert(is_numeral(s@));
    if 1 <= acc && acc <= 65535 {
        Ok(acc as u16)
    } else {
        Err(PortError::PortOutOfRange { token: s.to_owned() })
    }
}

/// If the digits up to position `i` (exclusive of the digit at `i`) already
/// denote a value that with one more digit exceeds `usize::MAX`, the whole
/// token is no representable integer (or no numeral at all).
proof fn lemma_token_overflow(s: Seq<char>, offset: int, i: int)
    requires
        0 <= offset <= i < s.len(),
        forall|k: int| offset <= k < i ==> is_digit(#[trigger] s[k]),
        is_digit(s[i]),
        s.subrange(offset, s.len() as int) =~= digits_of(s),
        dec_value(s.subrange(offset, i)) * 10 + digit_val(s[i]) > usize::MAX,
    ensures
        !is_numeral(s) || token_value(s) > usize::MAX as nat,
{
    if is_numeral(s) {
        let digits = digits_of(s);
        let pre = s.subrange(offset, i + 1);
        assert(pre.drop_last() =~= s.subrange(offset, i));
        assert(pre.last() == s[i]);
        assert(dec_value(pre) == dec_value(s.subrange(offset, i)) * 10 + digit_val(s[i]));
        assert(digits.subrange(0, i + 1 - offset) =~= pre);
        lemma_dec_value_prefix(digits, i + 1 - offset);
    }
}

/// Printing a number in decimal and reading the digits back is the
/// identity: the digit string of `n` is all digits and denotes `n`.  In
/// particular, the port digits of a `host:port` candidate name that port.
pub proof fn lemma_decimal_digits_value(n: nat)
    ensures
        all_digits(dec_digits(n)),
        dec_value(dec_digits(n)) == n,
    decreases n,
{
    if n < 10 {
        assert(dec_digits(n).drop_last() =~= Seq::<char>::empty());
        assert(dec_value(Seq::<char>::empty()) == 0);
        assert(dec_digits(n).last() == digit_char(n));
        assert(dec_value(dec_digits(n)) == digit_val(digit_char(n)));
        assert(digit_val(digit_char(n)) == n);
    } else {
        lemma_decimal_digits_value(n / 10);
        let d = dec_digits(n);
        assert(d.drop_last() =~= dec_digits(n / 10));
        assert(d.last() == digit_char(n % 10));
        assert(dec_value(d) == dec_value(dec_digits(n / 10)) * 10 + digit_val(digit_char(n % 10)));
        assert forall|i: int| 0 <= i < d.len() implies is_digit(#[trigger] d[i]) by {
            if i < d.len() - 1 {
                assert(d[i] == dec_digits(n / 10)[i]);
            }
        }
    }
}

/// A port number printed in decimal is itself a valid port token.
pub proof fn lemma_port_token_round_trip(p: u16)
    requires
        1 <= p,
    ensures
        valid_port_token(dec_digits(p as nat)),
        token_value(dec_digits(p as nat)) == p as nat,
{
    lemma_decimal_digits_value(p as nat);
    let d = dec_digits(p as nat);
    assert(is_digit(d[0]));
    assert(d[0] != '+');
    assert(digits_of(d) == d);
}

// ---------------------------------------------------------------------------
// Splitting an expression on `-`
// ---------------------------------------------------------------------------

/// Index of the first `-` in `s`, or `s.len()` if there is none.
pub open spec fn first_dash(s: Seq<char>) -> nat
    decreases s.len(),
{
    if s.len() == 0 {
        0
    } else if s[0] == '-' {
        0
    } else {
        1 + first_dash(s.drop_first())
    }
}

/// The tokens of `s`: the maximal runs of characters between `-` separators.
/// An expression without `-` is one token; each separator starts a new
/// (possibly empty) token.
pub open spec fn split_dash(s: Seq<char>) -> Seq<Seq<char>>
    decreases s.len(),
{
    if first_dash(s) < s.len() {
        seq![s.take(first_dash(s) as int)] + split_dash(s.skip(first_dash(s) as int + 1))
    } else {
        seq![s]
    }
}

proof fn lemma_first_dash(s: Seq<char>)
    ensures
        first_dash(s) <= s.len(),
        forall|k: int| 0 <= k < first_dash(s) ==> s[k] != '-',
        first_dash(s) < s.len() ==> s[first_dash(s) as int] == '-',
    decreases s.len(),
{
    if s.len() > 0 && s[0] != '-' {
        lemma_first_dash(s.drop_first());
        assert forall|k: int| 0 <= k < first_dash(s) implies s[k] != '-' by {
            if k > 0 {
                assert(s.drop_first()[k - 1] != '-');
            }
        }
    }
}

/// A position with no `-` before it, and a `-` (or the end) at it, is the
/// first dash.
proof fn lemma_first_dash_is(s: Seq<char>, j: int)
    requires
        0 <= j <= s.len(),
        forall|k: int| 0 <= k < j ==> s[k] != '-',
        j < s.len() ==> s[j] == '-',
    ensures
        first_dash(s) == j,
    decreases s.len(),
{
    if s.len() == 0 {
    } else if s[0] == '-' {
        assert(j == 0);
    } else {
        assert(s[0] != '-');
        assert(j >= 1);
        assert forall|k: int| 0 <= k < j - 1 implies s.drop_first()[k] != '-' by {
            assert(s[k + 1] != '-');
        }
        lemma_first_dash_is(s.drop_first(), j - 1);
    }
}

proof fn lemma_split_dash_len(s: Seq<char>)
    ensures
        split_dash(s).len() >= 1,
    decreases s.len(),
{
    if first_dash(s) < s.len() {
        lemma_split_dash_len(s.skip(first_dash(s) as int + 1));
    }
}

/// Every token of the expression names a port.
pub open spec fn all_tokens_valid(toks: Seq<Seq<char>>) -> bool {
    forall|i: int| 0 <= i < toks.len() ==> valid_port_token(#[trigger] toks[i])
}

/// `e` is the error of the first invalid token of the expression: every token
/// before it is valid, and `e` carries and classifies that token.
pub open spec fn errs_at_first_invalid(toks: Seq<Seq<char>>, e: PortError) -> bool {
    exists|i: int|
        {
            &&& 0 <= i < toks.len()
            &&& !valid_port_token(#[trigger] toks[i])
            &&& token_error_is(toks[i], e)
            &&& forall|k: int| 0 <= k < i ==> valid_port_token(#[trigger] toks[k])
        }
}

/// Parse every `-`-separated token of the expression as a port, failing on
/// the first token that is no port.
fn parse_all_tokens(s: &str) -> (r: Result<Vec<u16>, PortError>)
    ensures
        r is Ok <==> all_tokens_valid(split_dash(s@)),
        r matches Ok(v) ==> {
            &&& v@.len() == split_dash(s@).len()
            &&& forall|i: int|
                0 <= i < v@.len() ==> #[trigger] v@[i] as nat == token_value(split_dash(s@)[i])
        },
        r matches Err(e) ==> errs_at_first_invalid(split_dash(s@), e),
    decreases s@.len(),
{
    let len: usize = s.unicode_len();
    let mut j: usize = 0;
    while j < len && s.get_char(j) != '-'
        invariant
            0 <= j <= len,
            len == s@.len(),
            forall|k: int| 0 <= k < j ==> s@[k] != '-',
        decreases len - j,
    {
        j = j + 1;
    }
    proof {
        lemma_first_dash_is(s@, j as int);
    }
    if j == len {
        match port_in_range(s) {
            Ok(p) => {
                let mut v: Vec<u16> = Vec::new();
                v.push(p);
                proof {
                    assert(split_dash(s@) =~= seq![s@]);
                }
                Ok(v)
            },
            Err(e) => {
                proof {
                    assert(split_dash(s@) =~= seq![s@]);
                    assert(!valid_port_token(split_dash(s@)[0]));
                }
                Err(e)
            },
        }
    } else {
        let head = s.substring_char(0, j);
        let tail = s.substring_char(j + 1, len);
        let ghost toks = split_dash(s@);
        proof {
            assert(head@ =~= s@.take(j as int));
            assert(tail@ =~= s@.skip(j as int + 1));
            assert(toks == seq![head@] + split_dash(tail@));
            lemma_split_dash_len(tail@);
        }
        match port_in_range(head) {
            Err(e) => {
                proof {
                    assert(toks[0] == head@);
                    assert(!valid_port_token(toks[0]) && token_error_is(toks[0], e));
                }
                Err(e)
            },
            Ok(p) => {
                match parse_all_tokens(tail) {
                    Err(e) => {
                        proof {
                            let tail_toks = split_dash(tail@);
                            let i = choose|i: int|
                                {
                                    &&& 0 <= i < tail_toks.len()
                                    &&& !valid_port_token(#[trigger] tail_toks[i])
                                    &&& token_error_is(tail_toks[i], e)
                                    &&& forall|k: int|
                                        0 <= k < i ==> valid_port_token(#[trigger] tail_toks[k])
                                };
                            assert(toks[i + 1] == tail_toks[i]);
                            assert(!valid_port_token(toks[i + 1]));
                            assert forall|k: int| 0 <= k < i + 1 implies valid_port_token(
                                #[trigger] toks[k],
                            ) by {
                                if k > 0 {
                                    assert(toks[k] == tail_toks[k - 1]);
                                }
                            }
                            assert(errs_at_first_invalid(toks, e));
                        }
                        Err(e)
                    },
                    Ok(rest) => {
                        let mut v: Vec<u16> = Vec::new();
                        v.push(p);
                        let mut k: usize = 0;
                        while k < rest.len()
                            invariant
                                0 <= k <= rest@.len(),
                                v@.len() == 1 + k,
                                v@[0] == p,
                                forall|m: int| 0 <= m < k ==> v@[m + 1] == rest@[m],
                            decreases rest@.len() - k,
                        {
                            v.push(rest[k]);
                            k = k + 1;
                        }
                        proof {
                            assert forall|i: int| 0 <= i < v@.len() implies #[trigger] v@[i] as nat
                                == token_value(toks[i]) by {
                                if i > 0 {
                                    assert(v@[i] == rest@[i - 1]);
                                    assert(toks[i] == split_dash(tail@)[i - 1]);
                                }
                            }
                            assert forall|i: int| 0 <= i < toks.len() implies valid_port_token(
                                #[trigger] toks[i],
                            ) by {
                                if i > 0 {
                                    assert(toks[i] == split_dash(tail@)[i - 1]);
                                }
                            }
                        }
                        Ok(v)
                    },
                }
            },
        }
    }
}

// ---------------------------------------------------------------------------
// Port ranges
// ---------------------------------------------------------------------------

/// An inclusive range of ports, ordered and within `1..=65535`.
#[derive(Debug, Clone, Copy, PartialEq, Eq, Structural)]
pub struct PortRange {
    pub start: u16,
    pub end: u16,
}

impl PortRange {
    /// The range is ordered and starts at a real port.
    pub open spec fn wf(&self) -> bool {
        1 <= self.start <= self.end
    }
}

/// The range a valid expression denotes: one token probes that port alone;
/// with two or more tokens, the first two are reordered so that the smaller
/// is the start.  Tokens beyond the second are validated but ignored.
pub open spec fn range_of_tokens(toks: Seq<Seq<char>>) -> PortRange {
    let a = token_value(toks[0]) as u16;
    if toks.len() == 1 {
        PortRange { start: a, end: a }
    } else {
        let b = token_value(toks[1]) as u16;
        if a <= b {
            PortRange { start: a, end: b }
        } else {
            PortRange { start: b, end: a }
        }
    }
}

/// Parse a whole port expression into an ordered port range.
///
/// A single-token expression yields `start == end`; a two-token expression
/// yields the two ports in ascending order, whichever order they were typed
/// in.  The first token that is no port aborts parsing with its error.
pub fn parse_port_range(s: &str) -> (r: Result<PortRange, PortError>)
    ensures
        r is Ok <==> all_tokens_valid(split_dash(s@)),
        r matches Ok(pr) ==> pr == range_of_tokens(split_dash(s@)) && pr.wf(),
        r matches Err(e) ==> errs_at_first_invalid(split_dash(s@), e),
{
    proof {
        lemma_split_dash_len(s@);
    }
    match parse_all_tokens(s) {
        Err(e) => Err(e),
        Ok(v) => {
            let a = v[0];
            if v.len() == 1 {
                Ok(PortRange { start: a, end: a })
            } else {
                let b = v[1];
                if a <= b {
                    Ok(PortRange { start: a, end: b })
                } else {
                    Ok(PortRange { start: b, end: a })
                }
            }
        },
    }
}

/// The ports of the range, in the ascending order in which they are probed.
pub fn ports_in_order(pr: &PortRange) -> (r: Vec<u16>)
    requires
        pr.wf(),
    ensures
        r@.len() == pr.end - pr.start + 1,
        forall|i: int| 0 <= i < r@.len() ==> #[trigger] r@[i] == pr.start + i,
{
    let mut v: Vec<u16> = Vec::new();
    let mut p: u32 = pr.start as u32;
    while p <= pr.end as u32
        invariant
            pr.start <= p <= pr.end + 1,
            v@.len() == p - pr.start,
            forall|i: int| 0 <= i < v@.len() ==> #[trigger] v@[i] == pr.start + i,
        decreases pr.end + 1 - p,
    {
        v.push(p as u16);
        p = p + 1;
    }
    v
}

} // verus!

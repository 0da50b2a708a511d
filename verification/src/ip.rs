//! The textual form of an IPv4 address: four decimal numbers from 0 to 255,
//! separated by dots, none written with a leading zero; and how one is read
//! out of the answer of a public-address service.

use vstd::prelude::*;
use vstd::string::*;

verus! {

/// `c` is one of the digits `0` to `9`.
pub open spec fn is_digit(c: char) -> bool {
    48 <= c as u32 <= 57
}

/// The number that the digit `c` stands for.
pub open spec fn digit_value(c: char) -> int {
    c as u32 as int - 48
}

/// The number that the digits `s` write in base ten.
pub open spec fn decimal_value(s: Seq<char>) -> int
    decreases s.len(),
{
    if s.len() == 0 {
        0
    } else {
        10 * decimal_value(s.drop_last()) + digit_value(s.last())
    }
}

/// `s` writes one part of an address: one to three digits, without a leading
/// zero unless it is the single digit `0`, and at most 255.
pub open spec fn is_octet(s: Seq<char>) -> bool {
    &&& 1 <= s.len() <= 3
    &&& forall|i: int| 0 <= i < s.len() ==> is_digit(#[trigger] s[i])
    &&& (s.len() > 1 ==> digit_value(s[0]) != 0)
    &&& decimal_value(s) <= 255
}

/// `s` is made of `parts` octets with a dot between each two.
pub open spec fn is_dotted_octets(s: Seq<char>, parts: nat) -> bool
    decreases parts,
{
    if parts == 0 {
        false
    } else if parts == 1 {
        is_octet(s)
    } else {
        exists|k: int|
            1 <= k <= 3 && k < s.len() && #[trigger] is_octet(s.subrange(0, k)) && s[k] == '.'
                && is_dotted_octets(s.subrange(k + 1, s.len() as int), (parts - 1) as nat)
    }
}

/// `s` is an IPv4 address in dotted decimal form.
pub open spec fn is_ipv4(s: Seq<char>) -> bool {
    is_dotted_octets(s, 4)
}

/// The `k` characters of `s` from place `pos` on are an octet, and the text
/// ends or a dot stands right behind them.
pub open spec fn octet_ends_at(s: Seq<char>, pos: int, k: int) -> bool {
    &&& 1 <= k <= 3
    &&& pos + k <= s.len()
    &&& is_octet(s.subrange(pos, pos + k))
    &&& (pos + k == s.len() || s[pos + k] == '.')
}

/// Whether `c` is one of the digits `0` to `9`.
pub fn is_digit_char(c: char) -> (digit: bool)
    ensures
        digit == is_digit(c),
{
    let code: u32 = c as u32;
    code >= 48 && code <= 57
}

/// The length of the octet that starts at place `pos` of `s` and is followed
/// by a dot or by the end of the text, if there is one. `n` is the number of
/// characters of `s`.
fn octet_at(s: &str, n: usize, pos: usize) -> (len: Option<usize>)
    requires
        n == s@.len(),
        pos <= n,
    ensures
        match len {
            Some(k) => octet_ends_at(s@, pos as int, k as int),
            None => true,
        },
        forall|k: int| #[trigger] octet_ends_at(s@, pos as int, k) ==> len == Some(k as usize),
{
    let mut k: usize = 0;
    let mut value: u32 = 0;
    while k < 3 && k < n - pos && is_digit_char(s.get_char(pos + k))
        invariant
            n == s@.len(),
            pos <= n,
            k <= 3,
            pos + k <= n,
            forall|i: int| pos <= i < pos + k ==> is_digit(#[trigger] s@[i]),
            value == decimal_value(s@.subrange(pos as int, pos + k)),
            value <= 999,
            k <= 2 ==> value <= 99,
            k <= 1 ==> value <= 9,
            k == 0 ==> value == 0,
        decreases 3 - k,
    {
        let c: char = s.get_char(pos + k);
        proof {
            let longer = s@.subrange(pos as int, pos + k + 1);
            assert(longer.drop_last() =~= s@.subrange(pos as int, pos + k));
            assert(longer.last() == c);
        }
        value = value * 10 + (c as u32 - 48);
        k = k + 1;
    }
    let ghost digits = s@.subrange(pos as int, pos + k);
    assert forall|j: int| j != k && #[trigger] octet_ends_at(s@, pos as int, j) implies false by {
        let other = s@.subrange(pos as int, pos + j);
        if j < k {
            assert(is_digit(s@[pos + j]));
        } else {
            assert(other[k as int] == s@[pos + k]);
        }
    }
    if k == 0 {
        return None;
    }
    if k < n - pos && s.get_char(pos + k) != '.' {
        return None;
    }
    assert(digits[0] == s@[pos as int]);
    if k > 1 && s.get_char(pos) == '0' {
        return None;
    }
    if value > 255 {
        return None;
    }
    assert(forall|i: int| 0 <= i < digits.len() ==> digits[i] == s@[pos + i]);
    Some(k)
}

/// Several dotted octets from place `pos` of `s` on begin with the one octet
/// there that a dot follows, and go on behind that dot.
proof fn lemma_first_octet(s: Seq<char>, pos: int, parts: nat, found: Option<usize>)
    requires
        0 <= pos <= s.len(),
        parts >= 2,
        found matches Some(k) ==> octet_ends_at(s, pos, k as int),
        forall|k: int| #[trigger] octet_ends_at(s, pos, k) ==> found == Some(k as usize),
    ensures
        match found {
            Some(k) => if pos + k < s.len() {
                is_dotted_octets(s.subrange(pos, s.len() as int), parts) <==> is_dotted_octets(
                    s.subrange(pos + k + 1, s.len() as int),
                    (parts - 1) as nat,
                )
            } else {
                !is_dotted_octets(s.subrange(pos, s.len() as int), parts)
            },
            None => !is_dotted_octets(s.subrange(pos, s.len() as int), parts),
        },
{
    let n = s.len() as int;
    let rest = s.subrange(pos, n);
    if is_dotted_octets(rest, parts) {
        let j = choose|j: int|
            1 <= j <= 3 && j < rest.len() && #[trigger] is_octet(rest.subrange(0, j)) && rest[j]
                == '.' && is_dotted_octets(
                rest.subrange(j + 1, rest.len() as int),
                (parts - 1) as nat,
            );
        assert(rest.subrange(0, j) =~= s.subrange(pos, pos + j));
        assert(rest[j] == s[pos + j]);
        assert(octet_ends_at(s, pos, j));
        assert(rest.subrange(j + 1, rest.len() as int) =~= s.subrange(pos + j + 1, n));
    }
    if let Some(k) = found {
        if pos + k < n && is_dotted_octets(s.subrange(pos + k + 1, n), (parts - 1) as nat) {
            assert(rest.subrange(0, k as int) =~= s.subrange(pos, pos + k));
            assert(rest[k as int] == s[pos + k]);
            assert(rest.subrange(k + 1, rest.len() as int) =~= s.subrange(pos + k + 1, n));
            assert(is_octet(rest.subrange(0, k as int)));
        }
    }
}

/// Whether `s` is an IPv4 address in dotted decimal form.
pub fn is_ipv4_address(s: &str) -> (ok: bool)
    ensures
        ok == is_ipv4(s@),
{
    let n: usize = s.unicode_len();
    let mut pos: usize = 0;
    let mut parts: usize = 4;
    assert(s@.subrange(0, n as int) =~= s@);
    while parts > 1
        invariant
            n == s@.len(),
            pos <= n,
            1 <= parts <= 4,
            is_ipv4(s@) <==> is_dotted_octets(s@.subrange(pos as int, n as int), parts as nat),
        decreases parts,
    {
        let found: Option<usize> = octet_at(s, n, pos);
        proof {
            lemma_first_octet(s@, pos as int, parts as nat, found);
        }
        match found {
            Some(k) => {
                if k == n - pos {
                    return false;
                }
                pos = pos + k + 1;
                parts = parts - 1;
            },
            None => {
                return false;
            },
        }
    }
    let ghost rest = s@.subrange(pos as int, n as int);
    match octet_at(s, n, pos) {
        Some(k) => {
            if k == n - pos {
                assert(rest =~= s@.subrange(pos as int, pos + k));
                true
            } else {
                assert(rest.len() <= 3 ==> octet_ends_at(s@, pos as int, rest.len() as int)
                    || !is_octet(rest));
                false
            }
        },
        None => {
            assert(rest.len() <= 3 ==> octet_ends_at(s@, pos as int, rest.len() as int)
                || !is_octet(rest));
            false
        },
    }
}

/// Number of bytes of an answer that are looked at.
pub const MAX_RESPONSE_BYTES: usize = 16;

/// `c` is white space as Unicode defines it.
pub open spec fn is_space(c: char) -> bool {
    let code = c as u32;
    ||| 9 <= code <= 13
    ||| code == 0x20
    ||| code == 0x85
    ||| code == 0xA0
    ||| code == 0x1680
    ||| 0x2000 <= code <= 0x200A
    ||| code == 0x2028
    ||| code == 0x2029
    ||| code == 0x202F
    ||| code == 0x205F
    ||| code == 0x3000
}

/// `s` without the white space at its start.
pub open spec fn trim_start(s: Seq<char>) -> Seq<char>
    decreases s.len(),
{
    if s.len() > 0 && is_space(s[0]) {
        trim_start(s.subrange(1, s.len() as int))
    } else {
        s
    }
}

/// `s` without the white space at its end.
pub open spec fn trim_end(s: Seq<char>) -> Seq<char>
    decreases s.len(),
{
    if s.len() > 0 && is_space(s.last()) {
        trim_end(s.drop_last())
    } else {
        s
    }
}

/// `s` without the white space at its start and at its end.
pub open spec fn trimmed(s: Seq<char>) -> Seq<char> {
    trim_end(trim_start(s))
}

/// The first `limit` bytes of `s` can be cut off without cutting a character in two.
pub open spec fn cuts_cleanly(s: Seq<char>, limit: int) -> bool {
    vstd::utf8::encode_utf8(s).len() <= limit || vstd::utf8::is_char_boundary(
        vstd::utf8::encode_utf8(s),
        limit,
    )
}

/// What the first `limit` bytes of `s` spell; all of `s` where it is no longer.
pub open spec fn head_bytes(s: Seq<char>, limit: int) -> Seq<char> {
    if vstd::utf8::encode_utf8(s).len() <= limit {
        s
    } else {
        vstd::utf8::decode_utf8(vstd::utf8::encode_utf8(s).subrange(0, limit))
    }
}

/// The address that an answer of the public-address service holds: its first
/// bytes, white space at both ends aside, where they are an IPv4 address.
pub open spec fn response_address(raw: Seq<char>) -> Option<Seq<char>> {
    let text = trimmed(head_bytes(raw, MAX_RESPONSE_BYTES as int));
    if cuts_cleanly(raw, MAX_RESPONSE_BYTES as int) && is_ipv4(text) {
        Some(text)
    } else {
        None
    }
}

/// Whether `c` is white space.
pub fn is_space_char(c: char) -> (space: bool)
    ensures
        space == is_space(c),
{
    let code: u32 = c as u32;
    (code >= 9 && code <= 13) || code == 0x20 || code == 0x85 || code == 0xA0 || code == 0x1680
        || (code >= 0x2000 && code <= 0x200A) || code == 0x2028 || code == 0x2029 || code == 0x202F
        || code == 0x205F || code == 0x3000
}

/// `s` without the white space at its start and at its end.
pub fn trim(s: &str) -> (t: &str)
    ensures
        t@ == trimmed(s@),
{
    let n: usize = s.unicode_len();
    let mut start: usize = 0;
    assert(s@.subrange(0, n as int) =~= s@);
    while start < n && is_space_char(s.get_char(start))
        invariant
            n == s@.len(),
            start <= n,
            trim_start(s@) == trim_start(s@.subrange(start as int, n as int)),
        decreases n - start,
    {
        assert(s@.subrange(start as int, n as int).subrange(1, n - start) =~= s@.subrange(
            start + 1,
            n as int,
        ));
        start = start + 1;
    }
    let mut end: usize = n;
    while end > start && is_space_char(s.get_char(end - 1))
        invariant
            n == s@.len(),
            start <= end <= n,
            trimmed(s@) == trim_end(s@.subrange(start as int, end as int)),
        decreases end,
    {
        assert(s@.subrange(start as int, end as int).drop_last() =~= s@.subrange(
            start as int,
            end - 1,
        ));
        end = end - 1;
    }
    s.substring_char(start, end)
}

/// The first `limit` bytes of `s`, or `None` where they end inside a character.
pub fn truncate_bytes(s: &str, limit: usize) -> (head: Option<&str>)
    ensures
        match head {
            Some(h) => cuts_cleanly(s@, limit as int) && h@ == head_bytes(s@, limit as int),
            None => !cuts_cleanly(s@, limit as int),
        },
{
    if s.as_bytes().len() <= limit {
        Some(s)
    } else if s.is_char_boundary(limit) {
        let (h, _) = s.split_at(limit);
        proof {
            vstd::utf8::encode_utf8_decode_utf8(h@);
        }
        Some(h)
    } else {
        None
    }
}

/// Reads the address out of an answer of the public-address service.
pub fn read_response(raw: &str) -> (address: Option<String>)
    ensures
        match address {
            Some(ip) => response_address(raw@) == Some(ip@),
            None => response_address(raw@) == None::<Seq<char>>,
        },
{
    match truncate_bytes(raw, MAX_RESPONSE_BYTES) {
        Some(head) => {
            let text = trim(head);
            if is_ipv4_address(text) {
                Some(String::from_str(text))
            } else {
                None
            }
        },
        None => None,
    }
}

/// An address is never the empty text.
pub proof fn lemma_ipv4_not_empty(s: Seq<char>)
    requires
        is_ipv4(s),
    ensures
        s.len() > 0,
{
}

/// An address read out of an answer is an IPv4 address.
pub proof fn lemma_response_address_is_ipv4(raw: Seq<char>)
    ensures
        response_address(raw) matches Some(ip) ==> is_ipv4(ip) && ip.len() > 0,
{
    if let Some(ip) = response_address(raw) {
        lemma_ipv4_not_empty(ip);
    }
}

} // verus!

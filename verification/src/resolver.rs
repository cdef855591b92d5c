//! The address resolver's answer: from the echo service's response to the
//! address text that a cycle works with.
//!
//! The body is trimmed of ASCII blanks and must then be an IPv4 address in
//! dotted decimal notation: four numbers from 0 to 255, without sign or
//! leading zeros, separated by dots. Anything else is a parse failure, so no
//! stray text is ever written to a record.

use vstd::prelude::*;
use vstd::string::*;
use vstd::utf8::is_ascii_chars;
use crate::record::ErrorKind;

verus! {

/// The ASCII blanks: space, tab, line feed, vertical tab, form feed and
/// carriage return.
pub open spec fn is_blank(c: char) -> bool {
    c == ' ' || ('\u{9}' <= c <= '\u{d}')
}

/// A decimal digit.
pub open spec fn is_digit(c: char) -> bool {
    '0' <= c <= '9'
}

/// `s` without its leading blanks.
pub open spec fn trim_front(s: Seq<char>) -> Seq<char>
    decreases s.len(),
{
    if s.len() > 0 && is_blank(s[0]) {
        trim_front(s.drop_first())
    } else {
        s
    }
}

/// `s` without its trailing blanks.
pub open spec fn trim_back(s: Seq<char>) -> Seq<char>
    decreases s.len(),
{
    if s.len() > 0 && is_blank(s.last()) {
        trim_back(s.drop_last())
    } else {
        s
    }
}

/// `s` without leading and trailing blanks.
pub open spec fn trimmed(s: Seq<char>) -> Seq<char> {
    trim_back(trim_front(s))
}

/// The number that a string of digits denotes in base ten.
pub open spec fn decimal_value(s: Seq<char>) -> int
    decreases s.len(),
{
    if s.len() == 0 {
        0
    } else {
        10 * decimal_value(s.drop_last()) + (s.last() as int - '0' as int)
    }
}

/// One number of a dotted address: one to three digits, no leading zero
/// unless it is the single digit 0, at most 255.
pub open spec fn is_octet_text(s: Seq<char>) -> bool {
    &&& 1 <= s.len() <= 3
    &&& forall|i: int| 0 <= i < s.len() ==> is_digit(#[trigger] s[i])
    &&& (s.len() > 1 ==> s[0] != '0')
    &&& decimal_value(s) <= 255
}

/// The first octet of `s` ends at `i`, where a dot follows it.
pub open spec fn is_first_dot(s: Seq<char>, i: int) -> bool {
    &&& 0 < i < s.len()
    &&& s[i] == '.'
    &&& is_octet_text(s.subrange(0, i))
}

/// `s` is `count` octets separated by single dots.
pub open spec fn is_dotted(s: Seq<char>, count: nat) -> bool
    decreases count,
{
    if count == 0 {
        false
    } else if count == 1 {
        is_octet_text(s)
    } else {
        exists|i: int| #[trigger]
            is_first_dot(s, i) && is_dotted(
                s.subrange(i + 1, s.len() as int),
                (count - 1) as nat,
            )
    }
}

/// `s` is an IPv4 address in dotted decimal notation.
pub open spec fn is_ipv4_text(s: Seq<char>) -> bool {
    is_dotted(s, 4)
}

/// The address that a response body holds: the trimmed body, where that is
/// an IPv4 address.
pub open spec fn address_in(body: Seq<char>) -> Option<Seq<char>> {
    if is_ipv4_text(trimmed(body)) {
        Some(trimmed(body))
    } else {
        None
    }
}

/// What `trim_front` removes is a run of blanks at the front: the result is
/// `s` from the returned position on.
pub proof fn lemma_trim_front(s: Seq<char>) -> (k: int)
    ensures
        0 <= k <= s.len(),
        trim_front(s) == s.subrange(k, s.len() as int),
        forall|x: int| 0 <= x < k ==> is_blank(s[x]),
        k < s.len() ==> !is_blank(s[k]),
    decreases s.len(),
{
    if s.len() > 0 && is_blank(s[0]) {
        let rest = s.drop_first();
        let k = lemma_trim_front(rest);
        assert(rest.subrange(k, rest.len() as int) =~= s.subrange(k + 1, s.len() as int));
        assert forall|x: int| 0 <= x < k + 1 implies is_blank(s[x]) by {
            if x > 0 {
                assert(s[x] == rest[x - 1]);
            }
        }
        if k + 1 < s.len() {
            assert(s[k + 1] == rest[k]);
        }
        k + 1
    } else {
        assert(s.subrange(0, s.len() as int) =~= s);
        0
    }
}

/// What `trim_back` removes is a run of blanks at the back: the result is
/// `s` up to the returned position.
pub proof fn lemma_trim_back(s: Seq<char>) -> (m: int)
    ensures
        0 <= m <= s.len(),
        trim_back(s) == s.subrange(0, m),
        forall|x: int| m <= x < s.len() ==> is_blank(s[x]),
        m > 0 ==> !is_blank(s[m - 1]),
    decreases s.len(),
{
    if s.len() > 0 && is_blank(s.last()) {
        let rest = s.drop_last();
        let m = lemma_trim_back(rest);
        assert(rest.subrange(0, m) =~= s.subrange(0, m));
        assert forall|x: int| m <= x < s.len() implies is_blank(s[x]) by {
            if x < s.len() - 1 {
                assert(s[x] == rest[x]);
            }
        }
        if m > 0 {
            assert(s[m - 1] == rest[m - 1]);
        }
        m
    } else {
        assert(s.subrange(0, s.len() as int) =~= s);
        s.len() as int
    }
}

/// Dotted octets hold digits and dots only.
pub proof fn lemma_dotted_chars(s: Seq<char>, count: nat)
    requires
        is_dotted(s, count),
    ensures
        forall|x: int| 0 <= x < s.len() ==> is_digit(s[x]) || s[x] == '.',
    decreases count,
{
    if count >= 2 {
        let i = choose|i: int| #[trigger]
            is_first_dot(s, i) && is_dotted(
                s.subrange(i + 1, s.len() as int),
                (count - 1) as nat,
            );
        let head = s.subrange(0, i);
        let rest = s.subrange(i + 1, s.len() as int);
        lemma_dotted_chars(rest, (count - 1) as nat);
        assert forall|x: int| 0 <= x < s.len() implies is_digit(s[x]) || s[x] == '.' by {
            if x < i {
                assert(head[x] == s[x]);
            } else if x > i {
                assert(rest[x - i - 1] == s[x]);
            }
        }
    }
}

/// Dotted octets begin and end with a digit.
pub proof fn lemma_dotted_ends(s: Seq<char>, count: nat)
    requires
        is_dotted(s, count),
    ensures
        s.len() > 0,
        is_digit(s[0]),
        is_digit(s.last()),
    decreases count,
{
    if count >= 2 {
        let i = choose|i: int| #[trigger]
            is_first_dot(s, i) && is_dotted(
                s.subrange(i + 1, s.len() as int),
                (count - 1) as nat,
            );
        let head = s.subrange(0, i);
        let rest = s.subrange(i + 1, s.len() as int);
        lemma_dotted_ends(rest, (count - 1) as nat);
        assert(head[0] == s[0]);
        assert(rest.last() == s.last());
    }
}

/// An address is in its final form: it holds digits and dots only, begins
/// and ends with a digit, and read as a body again it gives itself.
pub proof fn law_address_is_canonical(body: Seq<char>)
    requires
        address_in(body) is Some,
    ensures
        address_in(address_in(body).unwrap()) == address_in(body),
        forall|x: int|
            0 <= x < trimmed(body).len() ==> is_digit(trimmed(body)[x]) || trimmed(body)[x]
                == '.',
{
    let text = trimmed(body);
    lemma_dotted_ends(text, 4);
    lemma_dotted_chars(text, 4);
    assert(trim_front(text) == text);
    assert(trim_back(text) == text);
}

/// A body that holds an address is ASCII throughout: blanks, then digits
/// and dots, then blanks.
pub proof fn lemma_body_with_address_is_ascii(body: Seq<char>)
    requires
        is_ipv4_text(trimmed(body)),
    ensures
        is_ascii_chars(body),
{
    let k = lemma_trim_front(body);
    let mid = trim_front(body);
    let m = lemma_trim_back(mid);
    let text = trimmed(body);
    lemma_dotted_chars(text, 4);
    assert forall|x: int| 0 <= x < body.len() implies '\0' <= #[trigger] body[x] <= '\u{7f}' by {
        if x >= k {
            assert(mid[x - k] == body[x]);
            if x - k < m {
                assert(text[x - k] == mid[x - k]);
            }
        }
    }
}

/// The character at position `i` of an ASCII string.
fn ascii_at(s: &str, i: usize) -> (b: u8)
    requires
        s.is_ascii(),
        i < s@.len(),
    ensures
        b as int == s@[i as int] as int,
        b < 128,
{
    let b: u8 = s.get_ascii(i);
    assert('\0' <= s@[i as int] <= '\u{7f}');
    b
}

/// Reads the number that starts at `from`. With `end` the end of the longest
/// run of digits from there, the result is `Some(end)` where that run is an
/// octet and `None` where it is not; in that case no text from `from` up to
/// a non-digit or the end of `s` is an octet.
fn read_octet(s: &str, from: usize, n: usize) -> (r: Option<usize>)
    requires
        s.is_ascii(),
        n == s@.len(),
        from <= n,
    ensures
        match r {
            Some(end) => {
                &&& from < end <= n
                &&& is_octet_text(s@.subrange(from as int, end as int))
                &&& (end == n || !is_digit(s@[end as int]))
            },
            None => forall|w: int|
                from <= w <= n && (w == n || !is_digit(s@[w])) ==> !is_octet_text(
                    #[trigger] s@.subrange(from as int, w),
                ),
        },
{
    let mut end: usize = from;
    let mut value: u32 = 0;
    let mut more = true;
    while more && end < n && end - from < 4
        invariant
            s.is_ascii(),
            n == s@.len(),
            from <= end <= n,
            end - from <= 4,
            forall|x: int| from <= x < end ==> is_digit(s@[x]),
            value == decimal_value(s@.subrange(from as int, end as int)),
            end - from == 0 ==> value == 0,
            end - from == 1 ==> value <= 9,
            end - from == 2 ==> value <= 99,
            end - from == 3 ==> value <= 999,
            end - from == 4 ==> value <= 9999,
            !more ==> end < n && !is_digit(s@[end as int]),
        decreases (if more { 1int } else { 0int }) + n - end,
    {
        let b: u8 = ascii_at(s, end);
        if b < 48 || b > 57 {
            more = false;
        } else {
            proof {
                let next = s@.subrange(from as int, end + 1);
                assert(next.drop_last() =~= s@.subrange(from as int, end as int));
                assert(next.last() == s@[end as int]);
            }
            value = value * 10 + (b - 48) as u32;
            end += 1;
        }
    }
    let ghost run = s@.subrange(from as int, end as int);
    let leading_zero = end - from > 1 && ascii_at(s, from) == 48;
    let ok = end - from >= 1 && end - from <= 3 && !leading_zero && value <= 255;
    proof {
        assert forall|i: int| 0 <= i < run.len() implies is_digit(#[trigger] run[i]) by {
            assert(run[i] == s@[from + i]);
        }
        if run.len() > 0 {
            assert(run[0] == s@[from as int]);
        }
        assert(ok == is_octet_text(run));
        if end - from <= 3 {
            assert(end == n || !is_digit(s@[end as int]));
        }
        if !ok {
            assert forall|w: int|
                from <= w <= n && (w == n || !is_digit(s@[w])) implies !is_octet_text(
                #[trigger] s@.subrange(from as int, w),
            ) by {
                let other = s@.subrange(from as int, w);
                if w < end {
                    assert(is_digit(s@[w]));
                } else if w > end {
                    if end - from <= 3 {
                        assert(other[end - from] == s@[end as int]);
                    }
                } else {
                    assert(other =~= run);
                }
            }
        }
    }
    if ok {
        Some(end)
    } else {
        None
    }
}

/// Two ends of an octet that starts at `from`, each at a non-digit or at the
/// end of `s`, are the same.
proof fn lemma_octet_end_unique(s: Seq<char>, from: int, end: int, w: int)
    requires
        0 <= from <= end <= s.len(),
        from <= w <= s.len(),
        is_octet_text(s.subrange(from, end)),
        is_octet_text(s.subrange(from, w)),
        end == s.len() || !is_digit(s[end]),
        w == s.len() || !is_digit(s[w]),
    ensures
        w == end,
{
    if w < end {
        assert(s.subrange(from, end)[w - from] == s[w]);
    } else if end < w {
        assert(s.subrange(from, w)[end - from] == s[end]);
    }
}

/// Whether `s` from position `from` on is `count` octets separated by dots.
fn dotted_from(s: &str, from: usize, n: usize, count: u8) -> (b: bool)
    requires
        s.is_ascii(),
        n == s@.len(),
        from <= n,
        count >= 1,
    ensures
        b == is_dotted(s@.subrange(from as int, n as int), count as nat),
    decreases count,
{
    let ghost rest = s@.subrange(from as int, n as int);
    match read_octet(s, from, n) {
        None => {
            proof {
                assert forall|i: int| !is_first_dot(rest, i) by {
                    if is_first_dot(rest, i) {
                        assert(rest[i] == s@[from + i]);
                        assert(rest.subrange(0, i) =~= s@.subrange(from as int, from + i));
                    }
                }
            }
            false
        },
        Some(end) => {
            if count == 1 {
                proof {
                    if end < n {
                        assert(rest[end - from] == s@[end as int]);
                    }
                }
                end == n
            } else {
                proof {
                    assert forall|i: int| is_first_dot(rest, i) implies from + i == end by {
                        assert(rest[i] == s@[from + i]);
                        assert(rest.subrange(0, i) =~= s@.subrange(from as int, from + i));
                        lemma_octet_end_unique(s@, from as int, end as int, from + i);
                    }
                }
                if end >= n {
                    return false;
                }
                if ascii_at(s, end) != 46 {
                    assert(rest[end - from] == s@[end as int]);
                    return false;
                }
                let tail = dotted_from(s, end + 1, n, count - 1);
                proof {
                    assert(rest[end - from] == s@[end as int]);
                    assert(rest.subrange(0, end - from) =~= s@.subrange(from as int, end as int));
                    assert(rest.subrange(end - from + 1, rest.len() as int) =~= s@.subrange(
                        end + 1,
                        n as int,
                    ));
                    if tail {
                        assert(is_first_dot(rest, end - from));
                    }
                }
                tail
            }
        },
    }
}

/// Whether `s` is an IPv4 address in dotted decimal notation.
pub fn is_ipv4(s: &str) -> (b: bool)
    ensures
        b == is_ipv4_text(s@),
{
    if !s.is_ascii() {
        proof {
            if is_ipv4_text(s@) {
                lemma_dotted_chars(s@, 4);
            }
        }
        return false;
    }
    let n: usize = s.unicode_len();
    assert(s@.subrange(0, n as int) =~= s@);
    dotted_from(s, 0, n, 4)
}

/// Whether the byte of an ASCII character is a blank.
fn is_blank_byte(b: u8) -> (r: bool)
    ensures
        r == (b == 32 || (9 <= b <= 13)),
{
    b == 32 || (b >= 9 && b <= 13)
}

/// The address in a response body: the body without leading and trailing
/// ASCII blanks, where what is left is an IPv4 address in dotted decimal
/// notation. Any other body is a parse failure.
pub fn address_from_body(body: &str) -> (r: Result<String, ErrorKind>)
    ensures
        match r {
            Ok(ip) => address_in(body@) == Some(ip@),
            Err(kind) => kind == ErrorKind::Parse && address_in(body@).is_none(),
        },
{
    if !body.is_ascii() {
        proof {
            if is_ipv4_text(trimmed(body@)) {
                lemma_body_with_address_is_ascii(body@);
            }
        }
        return Err(ErrorKind::Parse);
    }
    let n: usize = body.unicode_len();
    let mut lo: usize = 0;
    assert(body@.subrange(0, n as int) =~= body@);
    while lo < n && is_blank_byte(ascii_at(body, lo))
        invariant
            body.is_ascii(),
            n == body@.len(),
            lo <= n,
            trim_front(body@) == trim_front(body@.subrange(lo as int, n as int)),
        decreases n - lo,
    {
        proof {
            let here = body@.subrange(lo as int, n as int);
            assert(here[0] == body@[lo as int]);
            assert(here.drop_first() =~= body@.subrange(lo + 1, n as int));
        }
        lo += 1;
    }
    proof {
        let here = body@.subrange(lo as int, n as int);
        if lo < n {
            assert(here[0] == body@[lo as int]);
        }
        assert(trim_front(here) == here);
    }
    let mut hi: usize = n;
    while hi > lo && is_blank_byte(ascii_at(body, hi - 1))
        invariant
            body.is_ascii(),
            n == body@.len(),
            lo <= hi <= n,
            trimmed(body@) == trim_back(body@.subrange(lo as int, hi as int)),
        decreases hi,
    {
        proof {
            let here = body@.subrange(lo as int, hi as int);
            assert(here.last() == body@[hi - 1]);
            assert(here.drop_last() =~= body@.subrange(lo as int, hi - 1));
        }
        hi -= 1;
    }
    proof {
        let here = body@.subrange(lo as int, hi as int);
        if hi > lo {
            assert(here.last() == body@[hi - 1]);
        }
        assert(trim_back(here) == here);
    }
    let text = body.substring_ascii(lo, hi);
    if is_ipv4(text) {
        Ok(text.to_owned())
    } else {
        Err(ErrorKind::Parse)
    }
}

/// What the GET to the echo service came to.
#[derive(Clone, Debug, PartialEq, Eq)]
pub enum Fetched {
    /// No response: connection failure or timeout.
    Unreachable,
    /// A response with this status code and body.
    Response { status: u16, body: String },
}

/// Model of a [`Fetched`].
pub enum FetchedModel {
    Unreachable,
    Response { status: u16, body: Seq<char> },
}

impl View for Fetched {
    type V = FetchedModel;

    open spec fn view(&self) -> FetchedModel {
        match self {
            Fetched::Unreachable => FetchedModel::Unreachable,
            Fetched::Response { status, body } => FetchedModel::Response {
                status: *status,
                body: body@,
            },
        }
    }
}

/// A status code of the success class, 200 to 299.
pub open spec fn is_success(status: u16) -> bool {
    200 <= status <= 299
}

/// The resolver's result: a network failure where there is no response or
/// the status is not a success; else the address in the body, or a parse
/// failure where the body holds none.
pub open spec fn resolution(fetched: FetchedModel) -> Result<Seq<char>, ErrorKind> {
    match fetched {
        FetchedModel::Unreachable => Err(ErrorKind::Network),
        FetchedModel::Response { status, body } => if !is_success(status) {
            Err(ErrorKind::Network)
        } else {
            match address_in(body) {
                Some(ip) => Ok(ip),
                None => Err(ErrorKind::Parse),
            }
        },
    }
}

/// The view of a resolver's result.
pub open spec fn resolution_model(r: Result<String, ErrorKind>) -> Result<Seq<char>, ErrorKind> {
    match r {
        Ok(ip) => Ok(ip@),
        Err(kind) => Err(kind),
    }
}

/// Turns what the GET came to into the resolver's result.
pub fn resolve(fetched: &Fetched) -> (r: Result<String, ErrorKind>)
    ensures
        resolution_model(r) == resolution(fetched@),
{
    match fetched {
        Fetched::Unreachable => Err(ErrorKind::Network),
        Fetched::Response { status, body } => {
            if *status < 200 || *status > 299 {
                Err(ErrorKind::Network)
            } else {
                address_from_body(body.as_str())
            }
        },
    }
}

} // verus!

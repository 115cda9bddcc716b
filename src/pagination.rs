//! Turning untrusted `offset` / `limit` request parameters into a page of a
//! sequence. Malformed numbers are never an error: they fall back to the
//! defaults.
use vstd::prelude::*;

verus! {

/// Page size used when `limit` is absent or does not parse.
pub const DEFAULT_LIMIT: usize = 100;

/// Start position used when `offset` is absent or does not parse.
pub const DEFAULT_OFFSET: usize = 0;

pub open spec fn is_digit(c: char) -> bool {
    '0' <= c && c <= '9'
}

pub open spec fn all_digits(s: Seq<char>) -> bool {
    forall|i: int| 0 <= i < s.len() ==> is_digit(#[trigger] s[i])
}

/// The number written by a string of decimal digits.
pub open spec fn digits_value(s: Seq<char>) -> int
    decreases s.len(),
{
    if s.len() == 0 {
        0
    } else {
        digits_value(s.drop_last()) * 10 + (s.last() as int - '0' as int)
    }
}

/// The digits of an unsigned literal: what follows an optional leading `+`.
pub open spec fn unsigned_digits(s: Seq<char>) -> Seq<char> {
    if s.len() > 0 && s[0] == '+' {
        s.drop_first()
    } else {
        s
    }
}

/// The `usize` that a string denotes: an optional `+` followed by at least
/// one decimal digit, nothing else (no whitespace, no sign `-`), and a value
/// that fits.
pub open spec fn parsed_usize(s: Seq<char>) -> Option<usize> {
    let d = unsigned_digits(s);
    if d.len() > 0 && all_digits(d) && digits_value(d) <= usize::MAX {
        Some(digits_value(d) as usize)
    } else {
        None
    }
}

/// A request parameter's value when present and well formed, else `default`.
pub open spec fn param_or(p: Option<Seq<char>>, default: usize) -> usize {
    match p {
        Some(t) => match parsed_usize(t) {
            Some(v) => v,
            None => default,
        },
        None => default,
    }
}

/// The `(offset, limit)` pair that raw request parameters stand for.
pub open spec fn offset_limit(offset_param: Option<Seq<char>>, limit_param: Option<Seq<char>>) -> (
    usize,
    usize,
) {
    (param_or(offset_param, DEFAULT_OFFSET), param_or(limit_param, DEFAULT_LIMIT))
}

pub open spec fn opt_view(p: Option<&str>) -> Option<Seq<char>> {
    match p {
        Some(s) => Some(s@),
        None => None,
    }
}

/// The elements of `s` from position `offset` on, at most `limit` of them;
/// empty when `offset` lies at or past the end.
pub open spec fn page<T>(s: Seq<T>, offset: int, limit: int) -> Seq<T> {
    if offset >= s.len() {
        Seq::empty()
    } else if offset + limit >= s.len() {
        s.subrange(offset, s.len() as int)
    } else {
        s.subrange(offset, offset + limit)
    }
}

/// The page that a sequence yields for raw `offset` / `limit` parameters.
pub open spec fn resolved<T>(
    s: Seq<T>,
    offset_param: Option<Seq<char>>,
    limit_param: Option<Seq<char>>,
) -> Seq<T> {
    let (o, l) = offset_limit(offset_param, limit_param);
    page(s, o as int, l as int)
}

proof fn lemma_digits_value_monotone(s: Seq<char>, i: int)
    requires
        all_digits(s),
        0 <= i <= s.len(),
    ensures
        digits_value(s.take(i)) <= digits_value(s),
    decreases s.len(),
{
    if i < s.len() {
        let t = s.drop_last();
        assert(t.take(i) =~= s.take(i));
        assert(is_digit(s[s.len() - 1]));
        lemma_digits_value_monotone(t, i);
        assert(digits_value(t) >= 0) by {
            lemma_digits_value_nonneg(t);
        }
    } else {
        assert(s.take(i) =~= s);
    }
}

proof fn lemma_digits_value_nonneg(s: Seq<char>)
    requires
        all_digits(s),
    ensures
        digits_value(s) >= 0,
    decreases s.len(),
{
    if s.len() > 0 {
        assert(is_digit(s[s.len() - 1]));
        lemma_digits_value_nonneg(s.drop_last());
    }
}

/// Parses a decimal `usize` the way `str::parse::<usize>` does.
pub fn parse_usize(s: &str) -> (r: Option<usize>)
    ensures
        r == parsed_usize(s@),
{
    let n = s.unicode_len();
    let mut start: usize = 0;
    if n > 0 && s.get_char(0) == '+' {
        start = 1;
    }
    let ghost d = unsigned_digits(s@);
    assert(d =~= s@.subrange(start as int, n as int));
    if start >= n {
        return None;
    }
    let mut acc: usize = 0;
    let mut i: usize = start;
    while i < n
        invariant
            start <= i <= n,
            n == s@.len(),
            d == s@.subrange(start as int, n as int),
            d == unsigned_digits(s@),
            all_digits(d.take(i - start)),
            acc == digits_value(d.take(i - start)),
        decreases n - i,
    {
        let c = s.get_char(i);
        if c < '0' || c > '9' {
            assert(!is_digit(d[i - start]));
            return None;
        }
        let digit = (c as u32 - '0' as u32) as usize;
        let ghost k = i - start + 1;
        assert(d.take(k).drop_last() =~= d.take(k - 1));
        assert(d.take(k).last() == c);
        if acc > (usize::MAX - digit) / 10 {
            proof {
                assert(acc * 10 + digit > usize::MAX) by (nonlinear_arith)
                    requires
                        acc > (usize::MAX - digit) / 10,
                        digit <= 9,
                ;
                if all_digits(d) {
                    lemma_digits_value_monotone(d, k);
                }
            }
            return None;
        }
        assert(acc * 10 + digit <= usize::MAX) by (nonlinear_arith)
            requires
                acc <= (usize::MAX - digit) / 10,
                digit <= 9,
        ;
        acc = acc * 10 + digit;
        i += 1;
        assert(all_digits(d.take(i - start))) by {
            assert forall|j: int| 0 <= j < d.take(i - start).len() implies is_digit(
                #[trigger] d.take(i - start)[j],
            ) by {
                if j < k - 1 {
                    assert(d.take(k)[j] == d.take(k - 1)[j]);
                }
            }
        }
    }
    assert(d.take(n - start) =~= d);
    Some(acc)
}

/// Reads the `(offset, limit)` pair from the raw request parameters: an
/// absent or malformed `offset` counts as 0, an absent or malformed `limit`
/// as 100.
pub fn get_offset_limit(offset_param: Option<&str>, limit_param: Option<&str>) -> (r: (
    usize,
    usize,
))
    ensures
        r == offset_limit(opt_view(offset_param), opt_view(limit_param)),
{
    let limit: usize = match limit_param {
        None => DEFAULT_LIMIT,
        Some(text) => match parse_usize(text) {
            Some(v) => v,
            None => DEFAULT_LIMIT,
        },
    };
    let offset: usize = match offset_param {
        None => DEFAULT_OFFSET,
        Some(text) => match parse_usize(text) {
            Some(v) => v,
            None => DEFAULT_OFFSET,
        },
    };
    (offset, limit)
}

/// Copies out the elements of `items` from `offset` on, at most `limit` of
/// them.
pub fn page_of<T: Clone>(items: &Vec<T>, offset: usize, limit: usize) -> (r: Vec<T>)
    ensures
        r@.len() == page(items@, offset as int, limit as int).len(),
        forall|i: int|
            0 <= i < r@.len() ==> cloned::<T>(
                page(items@, offset as int, limit as int)[i],
                #[trigger] r@[i],
            ),
{
    let mut out: Vec<T> = Vec::new();
    if offset >= items.len() {
        return out;
    }
    let end: usize = if limit >= items.len() - offset {
        items.len()
    } else {
        offset + limit
    };
    let ghost p = page(items@, offset as int, limit as int);
    assert(p =~= items@.subrange(offset as int, end as int));
    let mut i: usize = offset;
    while i < end
        invariant
            offset <= i <= end <= items.len(),
            p == items@.subrange(offset as int, end as int),
            out@.len() == i - offset,
            forall|j: int| 0 <= j < out@.len() ==> cloned::<T>(p[j], #[trigger] out@[j]),
        decreases end - i,
    {
        out.push(items[i].clone());
        i += 1;
    }
    out
}

/// The page of `items` selected by the raw `offset` / `limit` parameters.
/// Never fails: malformed numbers fall back to the defaults.
pub fn resolve(items: &Vec<String>, offset_param: Option<&str>, limit_param: Option<&str>) -> (r:
    Vec<String>)
    ensures
        r@ == resolved(items@, opt_view(offset_param), opt_view(limit_param)),
{
    let (offset, limit) = get_offset_limit(offset_param, limit_param);
    let r = page_of(items, offset, limit);
    assert(r@ =~= page(items@, offset as int, limit as int));
    r
}

/// A resolved page is never longer than the limit, nor than what lies past
/// the offset, and it is the run of the sequence that starts at the offset,
/// in the same order.
pub proof fn lemma_resolve_bounded<T>(
    s: Seq<T>,
    offset_param: Option<Seq<char>>,
    limit_param: Option<Seq<char>>,
)
    ensures
        ({
            let (o, l) = offset_limit(offset_param, limit_param);
            let r = resolved(s, offset_param, limit_param);
            &&& r.len() <= l
            &&& r.len() <= if s.len() > o { s.len() - o } else { 0 }
            &&& forall|i: int| 0 <= i < r.len() ==> #[trigger] r[i] == s[o + i]
        }),
{
}

/// Absent or malformed `offset` and `limit` parameters behave exactly as
/// `offset=0` and `limit=100`.
pub proof fn lemma_resolve_defaults<T>(
    s: Seq<T>,
    offset_param: Option<Seq<char>>,
    limit_param: Option<Seq<char>>,
)
    requires
        offset_param is None || parsed_usize(offset_param->0) is None,
        limit_param is None || parsed_usize(limit_param->0) is None,
    ensures
        offset_limit(offset_param, limit_param) == (0usize, 100usize),
        resolved(s, offset_param, limit_param) == page(s, 0, 100),
{
}

} // verus!

//! Character-level string operations with the meaning that the standard
//! library gives them (`trim`, `replace`, `split_once`, `strip_prefix`,
//! decimal formatting and parsing), each stated over `Seq<char>`.

use vstd::prelude::*;

verus! {

/// The Unicode `White_Space` property, which `char::is_whitespace` and
/// `str::trim` use.
pub open spec fn spec_is_whitespace(c: char) -> bool {
    ||| ('\u{9}' <= c && c <= '\u{d}')
    ||| c == ' '
    ||| c == '\u{85}'
    ||| c == '\u{a0}'
    ||| c == '\u{1680}'
    ||| ('\u{2000}' <= c && c <= '\u{200a}')
    ||| c == '\u{2028}'
    ||| c == '\u{2029}'
    ||| c == '\u{202f}'
    ||| c == '\u{205f}'
    ||| c == '\u{3000}'
}

/// Whether `c` is Unicode white space.
pub fn is_whitespace(c: char) -> (res: bool)
    ensures
        res == spec_is_whitespace(c),
{
    ('\u{9}' <= c && c <= '\u{d}') || c == ' ' || c == '\u{85}' || c == '\u{a0}' || c == '\u{1680}'
        || ('\u{2000}' <= c && c <= '\u{200a}') || c == '\u{2028}' || c == '\u{2029}'
        || c == '\u{202f}' || c == '\u{205f}' || c == '\u{3000}'
}

/// `s` without its leading white space.
pub open spec fn spec_trim_start(s: Seq<char>) -> Seq<char>
    decreases s.len(),
{
    if s.len() > 0 && spec_is_whitespace(s[0]) {
        spec_trim_start(s.drop_first())
    } else {
        s
    }
}

/// `s` without its trailing white space.
pub open spec fn spec_trim_end(s: Seq<char>) -> Seq<char>
    decreases s.len(),
{
    if s.len() > 0 && spec_is_whitespace(s.last()) {
        spec_trim_end(s.drop_last())
    } else {
        s
    }
}

/// `s` without leading and trailing white space, as `str::trim` returns it.
pub open spec fn spec_trim(s: Seq<char>) -> Seq<char> {
    spec_trim_end(spec_trim_start(s))
}

/// Removes leading and trailing white space.
pub fn trim(s: &str) -> (res: String)
    ensures
        res@ == spec_trim(s@),
{
    let n = s.unicode_len();
    let mut i: usize = 0;
    assert(s@.skip(0) =~= s@);
    while i < n && is_whitespace(s.get_char(i))
        invariant
            i <= n,
            n == s@.len(),
            spec_trim_start(s@) == spec_trim_start(s@.skip(i as int)),
        decreases n - i,
    {
        assert(s@.skip(i as int).drop_first() =~= s@.skip(i + 1));
        i = i + 1;
    }
    assert(spec_trim_start(s@) == s@.skip(i as int));
    let mut j: usize = n;
    while j > i && is_whitespace(s.get_char(j - 1))
        invariant
            i <= j <= n,
            n == s@.len(),
            spec_trim_end(s@.skip(i as int)) == spec_trim_end(s@.subrange(i as int, j as int)),
        decreases j,
    {
        assert(s@.subrange(i as int, j as int).drop_last() =~= s@.subrange(i as int, j - 1));
        j = j - 1;
    }
    String::from_str(s.substring_char(i, j))
}

/// Whether `a` and `b` hold the same characters.
pub fn str_eq(a: &str, b: &str) -> (res: bool)
    ensures
        res == (a@ == b@),
{
    let n = a.unicode_len();
    if n != b.unicode_len() {
        return false;
    }
    let mut i: usize = 0;
    while i < n
        invariant
            i <= n,
            n == a@.len(),
            n == b@.len(),
            forall|k: int| 0 <= k < i ==> a@[k] == b@[k],
        decreases n - i,
    {
        if a.get_char(i) != b.get_char(i) {
            return false;
        }
        i = i + 1;
    }
    assert(a@ =~= b@);
    true
}

/// Whether `pat` occurs in `s` starting at character position `i`.
pub fn occurs_at(s: &str, pat: &str, i: usize) -> (res: bool)
    requires
        i <= s@.len(),
    ensures
        res == pat@.is_prefix_of(s@.skip(i as int)),
{
    let n = s.unicode_len();
    let m = pat.unicode_len();
    if m > n - i {
        return false;
    }
    let mut k: usize = 0;
    while k < m
        invariant
            k <= m,
            m == pat@.len(),
            n == s@.len(),
            i + m <= n,
            forall|l: int| 0 <= l < k ==> pat@[l] == s@[i + l],
        decreases m - k,
    {
        if pat.get_char(k) != s.get_char(i + k) {
            assert(pat@[k as int] != s@.skip(i as int).subrange(0, m as int)[k as int]);
            return false;
        }
        k = k + 1;
    }
    assert(pat@ =~= s@.skip(i as int).subrange(0, m as int));
    true
}

/// `s` with every non-overlapping occurrence of `pat`, scanned from the
/// left, replaced by `rep`, as `str::replace` computes it.
pub open spec fn spec_replace(s: Seq<char>, pat: Seq<char>, rep: Seq<char>) -> Seq<char>
    decreases s.len(),
{
    if s.len() == 0 {
        Seq::empty()
    } else if pat.len() > 0 && pat.is_prefix_of(s) {
        rep + spec_replace(s.skip(pat.len() as int), pat, rep)
    } else {
        seq![s[0]] + spec_replace(s.drop_first(), pat, rep)
    }
}

/// Replaces every occurrence of the non-empty `pat` in `s` by `rep`.
pub fn replace(s: &str, pat: &str, rep: &str) -> (res: String)
    requires
        pat@.len() > 0,
    ensures
        res@ == spec_replace(s@, pat@, rep@),
{
    let n = s.unicode_len();
    let m = pat.unicode_len();
    let mut res = String::new();
    let mut start: usize = 0;
    let mut i: usize = 0;
    assert(s@.skip(0) =~= s@);
    assert(res@ + s@.subrange(0, 0) =~= Seq::<char>::empty());
    while i < n
        invariant
            start <= i <= n,
            n == s@.len(),
            m == pat@.len(),
            m > 0,
            res@ + s@.subrange(start as int, i as int) + spec_replace(s@.skip(i as int), pat@, rep@)
                == spec_replace(s@, pat@, rep@),
        decreases n - i,
    {
        let ghost tail = s@.skip(i as int);
        if occurs_at(s, pat, i) {
            let ghost before = res@;
            let ghost seg = s@.subrange(start as int, i as int);
            assert(tail.skip(m as int) =~= s@.skip(i + m));
            assert(spec_replace(tail, pat@, rep@) == rep@ + spec_replace(s@.skip(i + m), pat@, rep@));
            res.append(s.substring_char(start, i));
            res.append(rep);
            i = i + m;
            start = i;
            assert(res@ + s@.subrange(start as int, i as int) + spec_replace(s@.skip(i as int), pat@, rep@)
                =~= before + seg + (rep@ + spec_replace(s@.skip(i as int), pat@, rep@)));
        } else {
            assert(tail.drop_first() =~= s@.skip(i + 1));
            assert(s@.subrange(start as int, i as int) + seq![s@[i as int]] =~= s@.subrange(
                start as int,
                i + 1,
            ));
            i = i + 1;
        }
    }
    res.append(s.substring_char(start, n));
    res
}

/// The position of the first occurrence of the non-empty `pat` in `s` at or
/// after position `i`.
pub open spec fn spec_find_from(s: Seq<char>, pat: Seq<char>, i: int) -> Option<int>
    decreases s.len() - i,
{
    if pat.len() == 0 || i < 0 || i + pat.len() > s.len() {
        None
    } else if pat.is_prefix_of(s.skip(i)) {
        Some(i)
    } else {
        spec_find_from(s, pat, i + 1)
    }
}

/// The position of the first occurrence of the non-empty `pat` in `s`.
pub open spec fn spec_find(s: Seq<char>, pat: Seq<char>) -> Option<int> {
    spec_find_from(s, pat, 0)
}

/// Finds the first occurrence of the non-empty `pat` in `s`.
pub fn find(s: &str, pat: &str) -> (res: Option<usize>)
    requires
        pat@.len() > 0,
    ensures
        match res {
            Some(i) => spec_find(s@, pat@) == Some(i as int),
            None => spec_find(s@, pat@) is None,
        },
{
    let n = s.unicode_len();
    let m = pat.unicode_len();
    if m > n {
        return None;
    }
    let mut i: usize = 0;
    while i <= n - m
        invariant
            n == s@.len(),
            m == pat@.len(),
            m > 0,
            m <= n,
            i <= n,
            spec_find(s@, pat@) == spec_find_from(s@, pat@, i as int),
        decreases n - i,
    {
        if occurs_at(s, pat, i) {
            return Some(i);
        }
        i = i + 1;
    }
    None
}

/// What `str::split_once` returns for the non-empty delimiter `pat`.
pub open spec fn spec_split_once(s: Seq<char>, pat: Seq<char>) -> Option<(Seq<char>, Seq<char>)> {
    match spec_find(s, pat) {
        Some(i) => Some((s.take(i), s.skip(i + pat.len()))),
        None => None,
    }
}

/// Splits `s` at the first occurrence of the non-empty `pat`.
pub fn split_once(s: &str, pat: &str) -> (res: Option<(String, String)>)
    requires
        pat@.len() > 0,
    ensures
        match res {
            Some((l, r)) => spec_split_once(s@, pat@) == Some((l@, r@)),
            None => spec_split_once(s@, pat@) is None,
        },
{
    match find(s, pat) {
        Some(i) => {
            proof {
                lemma_find_from_bounds(s@, pat@, 0);
            }
            let n = s.unicode_len();
            let m = pat.unicode_len();
            let l = String::from_str(s.substring_char(0, i));
            let r = String::from_str(s.substring_char(i + m, n));
            Some((l, r))
        },
        None => None,
    }
}

/// A found position leaves room for the whole pattern.
pub proof fn lemma_find_from_bounds(s: Seq<char>, pat: Seq<char>, i: int)
    ensures
        spec_find_from(s, pat, i) matches Some(k) ==> i <= k && k + pat.len() <= s.len()
            && pat.is_prefix_of(s.skip(k)),
    decreases s.len() - i,
{
    if pat.len() == 0 || i < 0 || i + pat.len() > s.len() {
    } else if pat.is_prefix_of(s.skip(i)) {
    } else {
        lemma_find_from_bounds(s, pat, i + 1);
    }
}

/// The search finds the first position, at or after `i`, where the
/// non-empty `pat` occurs.
pub proof fn lemma_find_from_first(s: Seq<char>, pat: Seq<char>, i: int, k: int)
    requires
        pat.len() > 0,
        0 <= i <= k,
        k + pat.len() <= s.len(),
        pat.is_prefix_of(s.skip(k)),
        forall|j: int| i <= j < k ==> !pat.is_prefix_of(#[trigger] s.skip(j)),
    ensures
        spec_find_from(s, pat, i) == Some(k),
    decreases k - i,
{
    if i < k {
        lemma_find_from_first(s, pat, i + 1, k);
    }
}

/// The search finds nothing when the non-empty `pat` occurs nowhere at or
/// after `i`.
pub proof fn lemma_find_from_none(s: Seq<char>, pat: Seq<char>, i: int)
    requires
        pat.len() > 0,
        0 <= i,
        forall|j: int| i <= j && j + pat.len() <= s.len() ==> !pat.is_prefix_of(#[trigger] s.skip(j)),
    ensures
        spec_find_from(s, pat, i) is None,
    decreases s.len() - i,
{
    if i + pat.len() <= s.len() {
        lemma_find_from_none(s, pat, i + 1);
    }
}

/// What `str::strip_prefix` returns.
pub open spec fn spec_strip_prefix(s: Seq<char>, prefix: Seq<char>) -> Option<Seq<char>> {
    if prefix.is_prefix_of(s) {
        Some(s.skip(prefix.len() as int))
    } else {
        None
    }
}

/// Removes `prefix` from the front of `s`, if it is there.
pub fn strip_prefix(s: &str, prefix: &str) -> (res: Option<String>)
    ensures
        match res {
            Some(r) => spec_strip_prefix(s@, prefix@) == Some(r@),
            None => spec_strip_prefix(s@, prefix@) is None,
        },
{
    assert(s@.skip(0) =~= s@);
    if occurs_at(s, prefix, 0) {
        let n = s.unicode_len();
        let m = prefix.unicode_len();
        Some(String::from_str(s.substring_char(m, n)))
    } else {
        None
    }
}

/// What `str::strip_suffix` returns.
pub open spec fn spec_strip_suffix(s: Seq<char>, suffix: Seq<char>) -> Option<Seq<char>> {
    if suffix.len() <= s.len() && s.skip(s.len() - suffix.len()) == suffix {
        Some(s.take(s.len() - suffix.len()))
    } else {
        None
    }
}

/// Removes `suffix` from the end of `s`, if it is there.
pub fn strip_suffix(s: &str, suffix: &str) -> (res: Option<String>)
    ensures
        match res {
            Some(r) => spec_strip_suffix(s@, suffix@) == Some(r@),
            None => spec_strip_suffix(s@, suffix@) is None,
        },
{
    let n = s.unicode_len();
    let m = suffix.unicode_len();
    if m > n {
        return None;
    }
    if occurs_at(s, suffix, n - m) {
        assert(s@.skip(n - m) =~= suffix@);
        Some(String::from_str(s.substring_char(0, n - m)))
    } else {
        assert(s@.skip(n - m).subrange(0, m as int) =~= s@.skip(n - m));
        None
    }
}

/// The character of the decimal digit `d`.
pub open spec fn spec_digit_char(d: nat) -> char {
    ((d + 48) as u32) as char
}

/// The decimal representation of `n`, without sign or leading zeros, as
/// `usize::to_string` writes it.
pub open spec fn spec_decimal(n: nat) -> Seq<char>
    decreases n,
{
    if n < 10 {
        seq![spec_digit_char(n)]
    } else {
        spec_decimal(n / 10) + seq![spec_digit_char(n % 10)]
    }
}

fn digit_str(d: usize) -> (res: &'static str)
    requires
        d < 10,
    ensures
        res@ == seq![spec_digit_char(d as nat)],
{
    proof {
        reveal_strlit("0");
        reveal_strlit("1");
        reveal_strlit("2");
        reveal_strlit("3");
        reveal_strlit("4");
        reveal_strlit("5");
        reveal_strlit("6");
        reveal_strlit("7");
        reveal_strlit("8");
        reveal_strlit("9");
    }
    let r = if d == 0 {
        "0"
    } else if d == 1 {
        "1"
    } else if d == 2 {
        "2"
    } else if d == 3 {
        "3"
    } else if d == 4 {
        "4"
    } else if d == 5 {
        "5"
    } else if d == 6 {
        "6"
    } else if d == 7 {
        "7"
    } else if d == 8 {
        "8"
    } else {
        "9"
    };
    assert(r@ =~= seq![spec_digit_char(d as nat)]);
    r
}

/// Writes `n` in decimal.
pub fn usize_to_decimal(n: usize) -> (res: String)
    ensures
        res@ == spec_decimal(n as nat),
    decreases n,
{
    if n < 10 {
        String::from_str(digit_str(n))
    } else {
        let mut res = usize_to_decimal(n / 10);
        res.append(digit_str(n % 10));
        res
    }
}

/// Whether `c` is one of the ASCII digits `0` to `9`.
pub open spec fn spec_is_digit(c: char) -> bool {
    '0' <= c && c <= '9'
}

/// The value of the ASCII digit `c`.
pub open spec fn spec_digit_value(c: char) -> nat {
    (c as int - 48) as nat
}

/// Whether every character of `ds` is an ASCII digit.
pub open spec fn spec_all_digits(ds: Seq<char>) -> bool {
    forall|i: int| 0 <= i < ds.len() ==> spec_is_digit(#[trigger] ds[i])
}

/// The number that the digits `ds` spell in decimal.
pub open spec fn spec_digits_value(ds: Seq<char>) -> nat
    decreases ds.len(),
{
    if ds.len() == 0 {
        0
    } else {
        spec_digits_value(ds.drop_last()) * 10 + spec_digit_value(ds.last())
    }
}

/// What `str::parse::<u64>` accepts: an optional `+`, then one or more
/// ASCII digits whose value fits in a `u64`.
pub open spec fn spec_parse_u64(s: Seq<char>) -> Option<u64> {
    let ds = if s.len() > 0 && s[0] == '+' {
        s.drop_first()
    } else {
        s
    };
    if ds.len() > 0 && spec_all_digits(ds) && spec_digits_value(ds) <= u64::MAX {
        Some(spec_digits_value(ds) as u64)
    } else {
        None
    }
}

/// The value of a prefix of a digit string is at most the value of the whole.
pub proof fn lemma_digits_value_prefix(ds: Seq<char>, k: int)
    requires
        0 <= k <= ds.len(),
    ensures
        spec_digits_value(ds.take(k)) <= spec_digits_value(ds),
    decreases ds.len(),
{
    if k == ds.len() {
        assert(ds.take(k) =~= ds);
    } else {
        lemma_digits_value_prefix(ds.drop_last(), k);
        assert(ds.drop_last().take(k) =~= ds.take(k));
    }
}

/// Parses a decimal `u64` the way `str::parse::<u64>` does.
pub fn parse_u64(s: &str) -> (res: Option<u64>)
    ensures
        res == spec_parse_u64(s@),
{
    let n = s.unicode_len();
    if n == 0 {
        return None;
    }
    let mut start: usize = 0;
    if s.get_char(0) == '+' {
        start = 1;
    }
    let ghost ds = if s@.len() > 0 && s@[0] == '+' {
        s@.drop_first()
    } else {
        s@
    };
    assert(ds =~= s@.skip(start as int));
    if start == n {
        return None;
    }
    let mut acc: u64 = 0;
    let mut i: usize = start;
    assert(ds.take(0) =~= Seq::<char>::empty());
    while i < n
        invariant
            start <= i <= n,
            n == s@.len(),
            ds == s@.skip(start as int),
            ds == (if s@.len() > 0 && s@[0] == '+' {
                s@.drop_first()
            } else {
                s@
            }),
            ds.len() > 0,
            acc == spec_digits_value(ds.take(i - start)),
            spec_all_digits(ds.take(i - start)),
        decreases n - i,
    {
        let c = s.get_char(i);
        let k = i - start;
        assert(ds[k as int] == c);
        if !('0' <= c && c <= '9') {
            assert(!spec_all_digits(ds));
            return None;
        }
        assert(ds.take(k + 1).drop_last() =~= ds.take(k as int));
        assert(ds.take(k + 1).last() == c);
        let d: u64 = (c as u32 - 48) as u64;
        assert(d == spec_digit_value(c));
        assert(spec_digits_value(ds.take(k + 1)) == acc * 10 + d);
        match acc.checked_mul(10) {
            None => {
                proof {
                    lemma_digits_value_prefix(ds, k + 1);
                }
                return None;
            },
            Some(t) => match t.checked_add(d) {
                None => {
                    proof {
                        lemma_digits_value_prefix(ds, k + 1);
                    }
                    return None;
                },
                Some(v) => {
                    acc = v;
                },
            },
        }
        assert(spec_all_digits(ds.take(k + 1))) by {
            assert forall|j: int| 0 <= j < k + 1 implies spec_is_digit(#[trigger] ds.take(k + 1)[j]) by {
                if j < k {
                    assert(ds.take(k + 1)[j] == ds.take(k as int)[j]);
                }
            }
        }
        i = i + 1;
    }
    assert(ds.take(n - start) =~= ds);
    Some(acc)
}

/// Trimming the end keeps a prefix of the input.
pub proof fn lemma_trim_end_is_prefix(s: Seq<char>)
    ensures
        spec_trim_end(s).is_prefix_of(s),
    decreases s.len(),
{
    if s.len() > 0 && spec_is_whitespace(s.last()) {
        lemma_trim_end_is_prefix(s.drop_last());
        assert(spec_trim_end(s).is_prefix_of(s)) by {
            let t = spec_trim_end(s.drop_last());
            assert(t =~= s.subrange(0, t.len() as int));
        }
    } else {
        assert(s =~= s.subrange(0, s.len() as int));
    }
}

/// Trimming the start leaves no white space in front.
pub proof fn lemma_trim_start_front(s: Seq<char>)
    ensures
        spec_trim_start(s).len() > 0 ==> !spec_is_whitespace(spec_trim_start(s)[0]),
    decreases s.len(),
{
    if s.len() > 0 && spec_is_whitespace(s[0]) {
        lemma_trim_start_front(s.drop_first());
    }
}

/// Trimming the end leaves no white space behind.
pub proof fn lemma_trim_end_back(s: Seq<char>)
    ensures
        spec_trim_end(s).len() > 0 ==> !spec_is_whitespace(spec_trim_end(s).last()),
    decreases s.len(),
{
    if s.len() > 0 && spec_is_whitespace(s.last()) {
        lemma_trim_end_back(s.drop_last());
    }
}

/// A trimmed string neither starts nor ends with white space.
pub proof fn lemma_trim_edges(s: Seq<char>)
    ensures
        spec_trim(s).len() > 0 ==> !spec_is_whitespace(spec_trim(s)[0]) && !spec_is_whitespace(
            spec_trim(s).last(),
        ),
{
    let a = spec_trim_start(s);
    lemma_trim_start_front(s);
    lemma_trim_end_is_prefix(a);
    lemma_trim_end_back(a);
    if spec_trim(s).len() > 0 {
        assert(spec_trim(s)[0] == spec_trim(s).subrange(0, spec_trim(s).len() as int)[0]);
        assert(spec_trim(s)[0] == a[0]);
    }
}

/// Trimming twice gives what trimming once gives.
pub proof fn lemma_trim_idempotent(s: Seq<char>)
    ensures
        spec_trim(spec_trim(s)) == spec_trim(s),
{
    let t = spec_trim(s);
    lemma_trim_edges(s);
    assert(spec_trim_start(t) == t);
    assert(spec_trim_end(t) == t);
}

/// The decimal form of `n` is a non-empty string of digits worth `n`.
pub proof fn lemma_decimal_digits(n: nat)
    ensures
        spec_decimal(n).len() > 0,
        spec_all_digits(spec_decimal(n)),
        spec_digits_value(spec_decimal(n)) == n,
    decreases n,
{
    if n < 10 {
        assert(spec_decimal(n).drop_last() =~= Seq::<char>::empty());
        assert(spec_digit_value(spec_digit_char(n)) == n);
        assert(spec_digits_value(Seq::<char>::empty()) == 0);
    } else {
        lemma_decimal_digits(n / 10);
        let d = spec_decimal(n);
        assert(d.drop_last() =~= spec_decimal(n / 10));
        assert(n == (n / 10) * 10 + n % 10);
        assert(spec_digit_value(spec_digit_char(n % 10)) == n % 10);
        assert(d.last() == spec_digit_char(n % 10));
    }
}

/// Parsing the decimal form of a `u64` gives the number back.
pub proof fn lemma_parse_decimal(n: u64)
    ensures
        spec_parse_u64(spec_decimal(n as nat)) == Some(n),
{
    lemma_decimal_digits(n as nat);
    let d = spec_decimal(n as nat);
    assert(spec_is_digit(d[0]));
}

/// Different numbers have different decimal forms.
pub proof fn lemma_decimal_injective(a: u64, b: u64)
    ensures
        spec_decimal(a as nat) == spec_decimal(b as nat) ==> a == b,
{
    lemma_parse_decimal(a);
    lemma_parse_decimal(b);
}

} // verus!

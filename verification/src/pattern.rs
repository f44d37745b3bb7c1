//! Compiled regular expressions from the `regex` crate, with what the
//! library relies on of them named over the pattern text.

use regex::Regex;
use vstd::prelude::*;

verus! {

/// `regex::Regex`, carried opaquely.
#[verifier::external_type_specification]
#[verifier::external_body]
pub struct ExRegex(Regex);

/// Whether `Regex::new` accepts `pattern` (valid syntax, within the default
/// size limit).
pub uninterp spec fn regex_compiles(pattern: Seq<char>) -> bool;

/// The string that `Regex::replace_all` builds from `haystack` for the regex
/// compiled from `pattern`, every match replaced by `replacement` (in which
/// `$` references to capture groups are expanded).
pub uninterp spec fn regex_replace_all(
    pattern: Seq<char>,
    haystack: Seq<char>,
    replacement: Seq<char>,
) -> Seq<char>;

/// For every match of `pattern` in `haystack`, from the left as
/// `Regex::captures_iter` yields them, the text of capture group `group`
/// (`None` where that group took no part in the match).
pub uninterp spec fn regex_group_texts(
    pattern: Seq<char>,
    haystack: Seq<char>,
    group: nat,
) -> Seq<Option<Seq<char>>>;

/// A compiled regular expression together with the pattern it was compiled
/// from.
pub struct Pattern {
    source: String,
    re: Regex,
}

impl View for Pattern {
    type V = Seq<char>;

    closed spec fn view(&self) -> Seq<char> {
        self.source@
    }
}

/// Compiles `source` with `Regex::new`.  Claimed: it succeeds exactly when
/// `regex_compiles(source@)`, and the pattern remembers `source`.
#[verifier::external_body]
pub(crate) fn compile(source: &str) -> (res: Option<Pattern>)
    ensures
        res is Some <==> regex_compiles(source@),
        res matches Some(p) ==> p@ == source@,
{
    match Regex::new(source) {
        Ok(re) => Some(Pattern { source: source.to_string(), re }),
        Err(_) => None,
    }
}

/// Calls `Regex::replace_all(haystack, replacement)` on the compiled pattern.
/// Claimed: the result is `regex_replace_all` of the pattern text and the two
/// arguments.
#[verifier::external_body]
pub(crate) fn replace_all(p: &Pattern, haystack: &str, replacement: &str) -> (res: String)
    ensures
        res@ == regex_replace_all(p@, haystack@, replacement@),
{
    p.re.replace_all(haystack, replacement).into_owned()
}

/// Walks `Regex::captures_iter(haystack)` and hands out, for each match in
/// order, the text of group `group` from `Captures::get`.  Claimed: the list
/// is `regex_group_texts` of the pattern text and the arguments.
#[verifier::external_body]
pub(crate) fn group_texts(p: &Pattern, haystack: &str, group: usize) -> (res: Vec<Option<String>>)
    ensures
        spec_texts(res@) == regex_group_texts(
            p@,
            haystack@,
            group as nat,
        ),
{
    p.re.captures_iter(haystack).map(|caps| caps.get(group).map(|m| m.as_str().to_string())).collect()
}

/// The contents of a list of optional texts.
pub open spec fn spec_texts(texts: Seq<Option<String>>) -> Seq<Option<Seq<char>>> {
    texts.map_values(|t: Option<String>| t.deep_view())
}

/// The first text that is present in `texts`.
pub open spec fn spec_first_present(texts: Seq<Option<Seq<char>>>) -> Option<Seq<char>>
    decreases texts.len(),
{
    if texts.len() == 0 {
        None
    } else if texts[0] is Some {
        texts[0]
    } else {
        spec_first_present(texts.drop_first())
    }
}

/// The result is the entry at the least index that holds a text, however
/// many entries follow it, and nothing only when no entry holds a text.
pub proof fn lemma_first_present(texts: Seq<Option<Seq<char>>>, k: int)
    ensures
        0 <= k < texts.len() && texts[k] is Some && (forall|j: int| 0 <= j < k ==> #[trigger] texts[j] is None)
            ==> spec_first_present(texts) == texts[k],
        (forall|j: int| 0 <= j < texts.len() ==> #[trigger] texts[j] is None) ==> spec_first_present(texts) is None,
    decreases texts.len(),
{
    if texts.len() > 0 {
        let rest = texts.drop_first();
        assert(forall|j: int| 0 <= j < rest.len() ==> #[trigger] rest[j] == texts[j + 1]);
        lemma_first_present(rest, k - 1);
        if (forall|j: int| 0 <= j < texts.len() ==> #[trigger] texts[j] is None) {
            assert(texts[0] is None);
            assert(forall|j: int| 0 <= j < rest.len() ==> #[trigger] rest[j] is None) by {
                assert forall|j: int| 0 <= j < rest.len() implies #[trigger] rest[j] is None by {
                    assert(texts[j + 1] is None);
                }
            }
        }
        if 0 < k < texts.len() && texts[k] is Some && (forall|j: int| 0 <= j < k ==> #[trigger] texts[j] is None) {
            assert(texts[0] is None);
            assert(forall|j: int| 0 <= j < k - 1 ==> #[trigger] rest[j] is None) by {
                assert forall|j: int| 0 <= j < k - 1 implies #[trigger] rest[j] is None by {
                    assert(texts[j + 1] is None);
                }
            }
            assert(rest[k - 1] == texts[k]);
        }
    }
}

/// Takes the first text that is present.
pub fn first_present(texts: Vec<Option<String>>) -> (res: Option<String>)
    ensures
        res.deep_view() == spec_first_present(spec_texts(texts@)),
{
    let ghost all = spec_texts(texts@);
    let n = texts.len();
    let mut i: usize = 0;
    assert(all.skip(0) =~= all);
    while i < n && texts[i].is_none()
        invariant
            i <= n,
            n == texts@.len(),
            all == spec_texts(texts@),
            spec_first_present(all) == spec_first_present(all.skip(i as int)),
        decreases n - i,
    {
        assert(all[i as int] == texts@[i as int].deep_view());
        assert(all.skip(i as int).drop_first() =~= all.skip(i + 1));
        i = i + 1;
    }
    if i == n {
        return None;
    }
    let mut texts = texts;
    let ghost before = texts@;
    let t = texts.remove(i);
    assert(t == before[i as int]);
    assert(t.deep_view() == all[i as int]);
    assert(all.skip(i as int)[0] == all[i as int]);
    t
}

} // verus!

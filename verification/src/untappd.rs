//! Untappd ratings: the cache key of a search, the handling of the rate
//! limit, reading the rating out of a search page, and the pacing of a
//! batch of searches.

use crate::beer::{Beer, BeerView};
use crate::header::{header_value_to_str, spec_header_text, spec_is_visible_ascii};
use crate::pattern::{
    compile, first_present, group_texts, regex_compiles, regex_group_texts, spec_first_present,
    Pattern,
};
use crate::text::{
    lemma_decimal_digits, lemma_parse_decimal, parse_u64, spec_decimal, spec_is_digit,
    spec_parse_u64, strip_prefix,
};
use vstd::prelude::*;

verus! {

/// The rating attribute in an Untappd search page; group 1 is its value.
pub const RATING_PATTERN: &'static str = "data-rating=\"(.+)\"";

/// The HTTP status with which Untappd says "too many requests".
pub const TOO_MANY_REQUESTS: u16 = 429;

/// The cache key of a beer's searches: its shop URL without the leading
/// slash.
pub open spec fn spec_cache_key(url: Seq<char>) -> Seq<char> {
    url.drop_first()
}

/// The cache key of a beer's searches.  The shop's URLs are paths, so they
/// start with a slash.
pub fn cache_key(beer: &Beer) -> (res: String)
    requires
        beer.url@.len() > 0,
        beer.url@[0] == '/',
    ensures
        res@ == spec_cache_key(beer.url@),
{
    proof {
        reveal_strlit("/");
        assert(beer.url@.skip(1) =~= beer.url@.drop_first());
        assert("/"@.is_prefix_of(beer.url@));
    }
    match strip_prefix(beer.url.as_str(), "/") {
        Some(key) => key,
        None => String::new(),
    }
}

/// A value, or the number of seconds after which to ask again.
#[derive(Debug)]
pub enum ValueOrRetryAfter<T> {
    Value(T),
    RetryAfter(u64),
}

/// A rate-limited response that does not say when to come back.
#[derive(Debug, Clone, Copy, PartialEq, Eq, Structural)]
pub enum UntappdError {
    /// The response has no `retry-after` header.
    NoRetryAfter,
    /// The `retry-after` header is not visible ASCII.
    NonUtf8RetryAfter,
    /// The `retry-after` header is not a number of seconds.
    NonNumericRetryAfter,
}

/// What a search response's status and `retry-after` header mean: any
/// status but 429 lets the page be read; 429 asks to retry after the
/// header's number of seconds.
pub open spec fn spec_rate_limit(status: u16, retry_after: Option<Seq<u8>>) -> Result<
    ValueOrRetryAfter<()>,
    UntappdError,
> {
    if status != TOO_MANY_REQUESTS {
        Ok(ValueOrRetryAfter::Value(()))
    } else {
        match retry_after {
            None => Err(UntappdError::NoRetryAfter),
            Some(bytes) => match spec_header_text(bytes) {
                None => Err(UntappdError::NonUtf8RetryAfter),
                Some(text) => match spec_parse_u64(text) {
                    None => Err(UntappdError::NonNumericRetryAfter),
                    Some(secs) => Ok(ValueOrRetryAfter::RetryAfter(secs)),
                },
            },
        }
    }
}

/// A 429 answer whose `retry-after` header spells a number `d` in decimal
/// asks to wait exactly `d` seconds, however large; more generally a 429
/// answer waits for the number its header text parses to; and any other
/// status lets the page be read.
pub proof fn lemma_rate_limit_waits_as_asked(d: u64, status: u16, header: Option<Seq<u8>>)
    ensures
        spec_rate_limit(
            TOO_MANY_REQUESTS,
            Some(spec_decimal(d as nat).map_values(|c: char| c as u8)),
        ) == Ok::<ValueOrRetryAfter<()>, UntappdError>(ValueOrRetryAfter::RetryAfter(d)),
        header matches Some(h) && spec_header_text(h) matches Some(t) && spec_parse_u64(t) == Some(d)
            ==> spec_rate_limit(TOO_MANY_REQUESTS, header) == Ok::<
            ValueOrRetryAfter<()>,
            UntappdError,
        >(ValueOrRetryAfter::RetryAfter(d)),
        status != TOO_MANY_REQUESTS ==> spec_rate_limit(status, header) == Ok::<
            ValueOrRetryAfter<()>,
            UntappdError,
        >(ValueOrRetryAfter::Value(())),
{
    let digits = spec_decimal(d as nat);
    let bytes = digits.map_values(|c: char| c as u8);
    lemma_decimal_digits(d as nat);
    lemma_parse_decimal(d);
    assert forall|i: int| 0 <= i < bytes.len() implies spec_is_visible_ascii(#[trigger] bytes[i]) by {
        assert(spec_is_digit(digits[i]));
    }
    assert(bytes.map_values(|b: u8| b as char) =~= digits) by {
        assert forall|i: int| 0 <= i < digits.len() implies bytes.map_values(|b: u8| b as char)[i]
            == digits[i] by {
            assert(spec_is_digit(digits[i]));
        }
    }
}

/// Talking to Untappd's search.
pub struct Client;

impl Client {
    /// Decides from a search response's status and its `retry-after` header
    /// whether the page can be read or the search must wait.
    pub fn rate_limit(status: u16, retry_after: Option<Vec<u8>>) -> (res: Result<
        ValueOrRetryAfter<()>,
        UntappdError,
    >)
        ensures
            res == spec_rate_limit(status, retry_after.deep_view()),
    {
        if status != TOO_MANY_REQUESTS {
            return Ok(ValueOrRetryAfter::Value(()));
        }
        let ghost header = retry_after.deep_view();
        let bytes = match retry_after {
            Some(b) => b,
            None => return Err(UntappdError::NoRetryAfter),
        };
        assert(bytes.deep_view() =~= bytes@);
        assert(header == Some(bytes@));
        let text = match header_value_to_str(bytes.as_slice()) {
            Some(t) => t,
            None => return Err(UntappdError::NonUtf8RetryAfter),
        };
        match parse_u64(text.as_str()) {
            Some(secs) => Ok(ValueOrRetryAfter::RetryAfter(secs)),
            None => Err(UntappdError::NonNumericRetryAfter),
        }
    }
}

/// The compiled rating pattern.
pub struct RatingPattern {
    re: Pattern,
}

impl RatingPattern {
    #[verifier::type_invariant]
    closed spec fn compiled_from_constant(self) -> bool {
        self.re@ == RATING_PATTERN@
    }

    /// Compiles the rating pattern.
    pub fn new() -> (res: Option<RatingPattern>)
        ensures
            res is Some <==> regex_compiles(RATING_PATTERN@),
    {
        match compile(RATING_PATTERN) {
            Some(re) => Some(RatingPattern { re }),
            None => None,
        }
    }

    /// The rating in a search page: the value of the first `data-rating`
    /// attribute, from the first match whose value group took part.
    pub fn rating(&self, html: &str) -> (res: Option<String>)
        ensures
            res.deep_view() == spec_first_present(regex_group_texts(RATING_PATTERN@, html@, 1)),
    {
        proof {
            use_type_invariant(self);
        }
        first_present(group_texts(&self.re, html, 1))
    }
}

/// The beer after a search: a page sets the rating (to nothing when the page
/// holds none); a request to retry leaves the beer as it was.
pub open spec fn spec_after_search(beer: BeerView, outcome: ValueOrRetryAfter<Seq<char>>) -> BeerView {
    match outcome {
        ValueOrRetryAfter::RetryAfter(_) => beer,
        ValueOrRetryAfter::Value(html) => BeerView {
            untappd_score: spec_first_present(regex_group_texts(RATING_PATTERN@, html, 1)),
            ..beer
        },
    }
}

/// The longest wait that any of the outcomes asks for, if any asks.
pub open spec fn spec_longest_wait(outcomes: Seq<ValueOrRetryAfter<()>>) -> Option<u64>
    decreases outcomes.len(),
{
    if outcomes.len() == 0 {
        None
    } else {
        let rest = spec_longest_wait(outcomes.drop_last());
        match outcomes.last() {
            ValueOrRetryAfter::Value(_) => rest,
            ValueOrRetryAfter::RetryAfter(n) => match rest {
                None => Some(n),
                Some(m) => Some(if m >= n { m } else { n }),
            },
        }
    }
}

/// What happened in the loading of ratings.
#[derive(Debug)]
pub enum LoadEvent {
    /// Loading begins.
    Started,
    /// The searches of the current batch ended with this combined outcome.
    BatchDone(ValueOrRetryAfter<()>),
}

/// What the loading of ratings does next.
#[derive(Debug, Clone, Copy, PartialEq, Eq, Structural)]
pub enum LoadAction {
    /// Search the beers of batch `batch`.
    Search(usize),
    /// Sleep `secs` seconds, then search batch `batch` again.
    SleepThenSearch(u64, usize),
    /// All batches are done.
    Done,
}

/// The next batch index and action, for `batch_count` batches, after
/// `event` while working on batch `current`: batches go in order, a batch
/// that was asked to wait is searched again after one second more than the
/// wait, and a finished batch moves on to the next.
pub open spec fn spec_load_step(batch_count: nat, current: nat, event: LoadEvent) -> (nat, LoadAction) {
    match event {
        LoadEvent::Started => if batch_count == 0 {
            (0, LoadAction::Done)
        } else {
            (0, LoadAction::Search(0))
        },
        LoadEvent::BatchDone(ValueOrRetryAfter::RetryAfter(n)) => (
            current,
            LoadAction::SleepThenSearch((n + 1) as u64, current as usize),
        ),
        LoadEvent::BatchDone(ValueOrRetryAfter::Value(_)) => if current + 1 < batch_count {
            (current + 1, LoadAction::Search((current + 1) as usize))
        } else {
            (current + 1, LoadAction::Done)
        },
    }
}

/// Loading goes through the batches in order: a wait keeps the batch and
/// searches it again, a finished batch moves on by exactly one, and loading
/// is done exactly when the last batch has finished.
pub proof fn lemma_load_progress(batch_count: nat, current: nat, wait: u64)
    requires
        current < batch_count,
    ensures
        spec_load_step(batch_count, current, LoadEvent::BatchDone(ValueOrRetryAfter::RetryAfter(wait))).0
            == current,
        spec_load_step(batch_count, current, LoadEvent::BatchDone(ValueOrRetryAfter::RetryAfter(wait))).1
            is SleepThenSearch,
        spec_load_step(batch_count, current, LoadEvent::BatchDone(ValueOrRetryAfter::Value(()))).0
            == current + 1,
        (spec_load_step(batch_count, current, LoadEvent::BatchDone(ValueOrRetryAfter::Value(()))).1
            == LoadAction::Done) <==> current + 1 == batch_count,
{
}

/// Filling in the ratings of many beers.
pub struct Repository;

impl Repository {
    /// Applies one search outcome to a beer.
    pub fn apply_search(beer: &mut Beer, outcome: ValueOrRetryAfter<String>, pattern: &RatingPattern) -> (res:
        ValueOrRetryAfter<()>)
        ensures
            final(beer)@ == spec_after_search(
                old(beer)@,
                match outcome {
                    ValueOrRetryAfter::Value(h) => ValueOrRetryAfter::Value(h@),
                    ValueOrRetryAfter::RetryAfter(n) => ValueOrRetryAfter::RetryAfter(n),
                },
            ),
            res == match outcome {
                ValueOrRetryAfter::Value(_) => ValueOrRetryAfter::<()>::Value(()),
                ValueOrRetryAfter::RetryAfter(n) => ValueOrRetryAfter::<()>::RetryAfter(n),
            },
    {
        match outcome {
            ValueOrRetryAfter::RetryAfter(n) => ValueOrRetryAfter::RetryAfter(n),
            ValueOrRetryAfter::Value(html) => {
                beer.untappd_score = pattern.rating(html.as_str());
                ValueOrRetryAfter::Value(())
            },
        }
    }

    /// Combines the outcomes of a batch of searches: the batch must wait as
    /// long as the longest wait any search asked for; otherwise it is done.
    pub fn combine(outcomes: &Vec<ValueOrRetryAfter<()>>) -> (res: ValueOrRetryAfter<()>)
        ensures
            res == match spec_longest_wait(outcomes@) {
                Some(m) => ValueOrRetryAfter::<()>::RetryAfter(m),
                None => ValueOrRetryAfter::<()>::Value(()),
            },
    {
        let n = outcomes.len();
        let mut longest: Option<u64> = None;
        let mut i: usize = 0;
        assert(outcomes@.take(0) =~= Seq::<ValueOrRetryAfter<()>>::empty());
        while i < n
            invariant
                i <= n,
                n == outcomes@.len(),
                longest == spec_longest_wait(outcomes@.take(i as int)),
            decreases n - i,
        {
            assert(outcomes@.take(i + 1).drop_last() =~= outcomes@.take(i as int));
            match outcomes[i] {
                ValueOrRetryAfter::Value(_) => {},
                ValueOrRetryAfter::RetryAfter(secs) => {
                    longest = match longest {
                        None => Some(secs),
                        Some(m) => Some(if m >= secs { m } else { secs }),
                    };
                },
            }
            i = i + 1;
        }
        assert(outcomes@.take(n as int) =~= outcomes@);
        match longest {
            Some(m) => ValueOrRetryAfter::RetryAfter(m),
            None => ValueOrRetryAfter::Value(()),
        }
    }

    /// Decides the next step of loading ratings batch by batch.
    pub fn load_step(batch_count: usize, current: usize, event: LoadEvent) -> (res: (usize, LoadAction))
        requires
            event is BatchDone ==> current < batch_count,
            event matches LoadEvent::BatchDone(ValueOrRetryAfter::RetryAfter(n)) ==> n < u64::MAX,
        ensures
            (res.0 as nat, res.1) == spec_load_step(batch_count as nat, current as nat, event),
    {
        match event {
            LoadEvent::Started => if batch_count == 0 {
                (0, LoadAction::Done)
            } else {
                (0, LoadAction::Search(0))
            },
            LoadEvent::BatchDone(ValueOrRetryAfter::RetryAfter(n)) => (
                current,
                LoadAction::SleepThenSearch(Self::sleep_seconds(n), current),
            ),
            LoadEvent::BatchDone(ValueOrRetryAfter::Value(_)) => {
                let next = current + 1;
                if next < batch_count {
                    (next, LoadAction::Search(next))
                } else {
                    (next, LoadAction::Done)
                }
            },
        }
    }

    /// How long to sleep before retrying a batch: one second more than asked.
    pub fn sleep_seconds(retry_after: u64) -> (res: u64)
        requires
            retry_after < u64::MAX,
        ensures
            res == retry_after + 1,
    {
        retry_after + 1
    }
}

/// The combined wait is one that some search asked for, and no search asked
/// for a longer one.
pub proof fn lemma_longest_wait(outcomes: Seq<ValueOrRetryAfter<()>>)
    ensures
        spec_longest_wait(outcomes) is None <==> forall|i: int| 0 <= i < outcomes.len()
            ==> #[trigger] outcomes[i] is Value,
        spec_longest_wait(outcomes) matches Some(m) ==> (exists|i: int| 0 <= i < outcomes.len()
            && #[trigger] outcomes[i] == ValueOrRetryAfter::<()>::RetryAfter(m)) && (forall|i: int|
            0 <= i < outcomes.len() && #[trigger] outcomes[i] is RetryAfter ==> outcomes[i]->RetryAfter_0 <= m),
    decreases outcomes.len(),
{
    if outcomes.len() > 0 {
        let init = outcomes.drop_last();
        let last = outcomes.len() - 1;
        lemma_longest_wait(init);
        assert(forall|i: int| 0 <= i < init.len() ==> #[trigger] init[i] == outcomes[i]);
        assert(outcomes.last() == outcomes[last]);
        match outcomes[last] {
            ValueOrRetryAfter::Value(_) => {
                assert(spec_longest_wait(outcomes) == spec_longest_wait(init));
                if spec_longest_wait(init) is None {
                    assert forall|i: int| 0 <= i < outcomes.len() implies #[trigger] outcomes[i] is Value by {
                        if i < last {
                            assert(init[i] is Value);
                        }
                    }
                } else {
                    let j = choose|j: int| 0 <= j < init.len() && !(#[trigger] init[j] is Value);
                    assert(!(outcomes[j] is Value));
                }
                if let Some(m) = spec_longest_wait(outcomes) {
                    let j = choose|j: int| 0 <= j < init.len() && #[trigger] init[j] == ValueOrRetryAfter::<()>::RetryAfter(m);
                    assert(outcomes[j] == ValueOrRetryAfter::<()>::RetryAfter(m));
                    assert forall|i: int| 0 <= i < outcomes.len() && #[trigger] outcomes[i] is RetryAfter implies outcomes[i]->RetryAfter_0 <= m by {
                        if i < last {
                            assert(init[i] is RetryAfter);
                        }
                    }
                }
            },
            ValueOrRetryAfter::RetryAfter(n) => {
                assert(!(outcomes[last] is Value));
                let m = spec_longest_wait(outcomes)->Some_0;
                match spec_longest_wait(init) {
                    None => {
                        assert(m == n);
                        assert(outcomes[last] == ValueOrRetryAfter::<()>::RetryAfter(m));
                        assert forall|i: int| 0 <= i < outcomes.len() && #[trigger] outcomes[i] is RetryAfter implies outcomes[i]->RetryAfter_0 <= m by {
                            if i < last {
                                assert(init[i] is Value);
                            }
                        }
                    },
                    Some(k) => {
                        if k >= n {
                            let j = choose|j: int| 0 <= j < init.len() && #[trigger] init[j] == ValueOrRetryAfter::<()>::RetryAfter(k);
                            assert(outcomes[j] == ValueOrRetryAfter::<()>::RetryAfter(m));
                        } else {
                            assert(outcomes[last] == ValueOrRetryAfter::<()>::RetryAfter(m));
                        }
                        assert forall|i: int| 0 <= i < outcomes.len() && #[trigger] outcomes[i] is RetryAfter implies outcomes[i]->RetryAfter_0 <= m by {
                            if i < last {
                                assert(init[i] is RetryAfter);
                                assert(init[i]->RetryAfter_0 <= k);
                            }
                        }
                    },
                }
            },
        }
    }
}

} // verus!

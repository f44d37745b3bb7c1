//! Beer records: the cleaning of product names, the packaging kinds, the
//! builder that assembles a record, and the database of all records.

use crate::pattern::{compile, regex_compiles, regex_replace_all, replace_all, Pattern};
use crate::text::{
    lemma_trim_edges, lemma_trim_idempotent, replace, spec_is_whitespace, spec_replace,
    spec_split_once, spec_trim, split_once, str_eq, trim,
};
use vstd::prelude::*;

verus! {

/// Volume markers such as `0,5 L` or `330 L`.
pub const VOL_PATTERN: &'static str = "\\d+([,.]\\d+)? L";

/// Extract gravity markers such as `12°` or `15,5°`.
pub const GRAVITY_PATTERN: &'static str = "\\d+([,.]\\d+)?\u{b0}";

/// Runs of two or more white-space characters.
pub const SPACES_PATTERN: &'static str = "\\s{2,}";

/// The three compiled patterns that name cleaning uses.
pub struct NamePatterns {
    vol: Pattern,
    gravity: Pattern,
    spaces: Pattern,
}

impl NamePatterns {
    #[verifier::type_invariant]
    closed spec fn compiled_from_constants(self) -> bool {
        &&& self.vol@ == VOL_PATTERN@
        &&& self.gravity@ == GRAVITY_PATTERN@
        &&& self.spaces@ == SPACES_PATTERN@
    }

    /// Whether all three name-cleaning patterns compile.
    pub open spec fn all_compile() -> bool {
        &&& regex_compiles(VOL_PATTERN@)
        &&& regex_compiles(GRAVITY_PATTERN@)
        &&& regex_compiles(SPACES_PATTERN@)
    }

    /// Compiles the volume, gravity and white-space patterns.
    pub fn new() -> (res: Option<NamePatterns>)
        ensures
            res is Some <==> Self::all_compile(),
    {
        let vol = match compile(VOL_PATTERN) {
            Some(p) => p,
            None => return None,
        };
        let gravity = match compile(GRAVITY_PATTERN) {
            Some(p) => p,
            None => return None,
        };
        let spaces = match compile(SPACES_PATTERN) {
            Some(p) => p,
            None => return None,
        };
        Some(NamePatterns { vol, gravity, spaces })
    }
}

/// `name` with the packaging words `BUT.`, `BUTELKA`, `PUSZKA` and the
/// marker `0%` removed, in that order.
pub open spec fn spec_strip_packaging(name: Seq<char>) -> Seq<char> {
    let s1 = spec_replace(name, "BUT."@, ""@);
    let s2 = spec_replace(s1, "BUTELKA"@, ""@);
    let s3 = spec_replace(s2, "PUSZKA"@, ""@);
    spec_replace(s3, "0%"@, ""@)
}

/// `s` cut before the first `PROMOCJA` and trimmed, or `s` unchanged when it
/// holds no `PROMOCJA`.
pub open spec fn spec_cut_promotion(s: Seq<char>) -> Seq<char> {
    match spec_split_once(s, "PROMOCJA"@) {
        Some((before, _)) => spec_trim(before),
        None => s,
    }
}

/// Cutting the promotion keeps all of the text before `PROMOCJA`, trimmed,
/// whatever follows it: for any `before` holding no `PROMOCJA` and any
/// `after`, `before + "PROMOCJA" + after` becomes `trim(before)`.
pub proof fn lemma_cut_promotion_keeps_prefix(before: Seq<char>, after: Seq<char>)
    requires
        forall|i: int| 0 <= i && i + "PROMOCJA"@.len() <= before.len() ==> #[trigger] before.subrange(
            i,
            i + "PROMOCJA"@.len(),
        ) != "PROMOCJA"@,
    ensures
        spec_cut_promotion(before + "PROMOCJA"@ + after) == spec_trim(before),
{
    reveal_strlit("PROMOCJA");
    let p = "PROMOCJA"@;
    let s = before + p + after;
    let k = before.len() as int;
    assert(p.is_prefix_of(s.skip(k))) by {
        assert(p =~= s.skip(k).subrange(0, p.len() as int));
    }
    assert forall|j: int| 0 <= j < k implies !p.is_prefix_of(#[trigger] s.skip(j)) by {
        if j + p.len() <= k {
            assert(s.skip(j).subrange(0, p.len() as int) =~= before.subrange(j, j + p.len()));
        } else {
            let m = k - j;
            assert(1 <= m < 8);
            assert(s.skip(j)[m] == 'P');
            if p.is_prefix_of(s.skip(j)) {
                assert(s.skip(j).subrange(0, p.len() as int)[m] == p[m]);
                assert(p[m] != 'P');
            }
        }
    }
    crate::text::lemma_find_from_first(s, p, 0, k);
    assert(s.take(k) =~= before);
}

/// A name without `PROMOCJA` is left as it is.
pub proof fn lemma_cut_promotion_without_promotion(s: Seq<char>)
    requires
        forall|i: int| 0 <= i && i + "PROMOCJA"@.len() <= s.len() ==> #[trigger] s.subrange(
            i,
            i + "PROMOCJA"@.len(),
        ) != "PROMOCJA"@,
    ensures
        spec_cut_promotion(s) == s,
{
    reveal_strlit("PROMOCJA");
    let p = "PROMOCJA"@;
    assert forall|j: int| 0 <= j && j + p.len() <= s.len() implies !p.is_prefix_of(#[trigger] s.skip(j)) by {
        assert(s.skip(j).subrange(0, p.len() as int) =~= s.subrange(j, j + p.len()));
    }
    crate::text::lemma_find_from_none(s, p, 0);
}

/// The cleaned form of a shop's product name: packaging words removed,
/// volume markers removed, anything from `PROMOCJA` on dropped, gravity
/// markers removed, runs of white space collapsed to one space, and the
/// whole trimmed.
pub open spec fn spec_clean_name(name: Seq<char>) -> Seq<char> {
    let s1 = spec_strip_packaging(name);
    let s2 = regex_replace_all(VOL_PATTERN@, s1, ""@);
    let s3 = spec_cut_promotion(s2);
    let s4 = regex_replace_all(GRAVITY_PATTERN@, s3, ""@);
    let s5 = regex_replace_all(SPACES_PATTERN@, s4, " "@);
    spec_trim(s5)
}

/// Removes the packaging words from a product name.
pub fn strip_packaging_words(name: &str) -> (res: String)
    ensures
        res@ == spec_strip_packaging(name@),
{
    proof {
        reveal_strlit("BUT.");
        reveal_strlit("BUTELKA");
        reveal_strlit("PUSZKA");
        reveal_strlit("0%");
    }
    let s1 = replace(name, "BUT.", "");
    let s2 = replace(s1.as_str(), "BUTELKA", "");
    let s3 = replace(s2.as_str(), "PUSZKA", "");
    replace(s3.as_str(), "0%", "")
}

/// Drops everything from the first `PROMOCJA` on, trimming what is left.
pub fn cut_promotion(s: String) -> (res: String)
    ensures
        res@ == spec_cut_promotion(s@),
{
    proof {
        reveal_strlit("PROMOCJA");
    }
    match split_once(s.as_str(), "PROMOCJA") {
        Some((before, _)) => trim(before.as_str()),
        None => s,
    }
}

/// Cleans a product name as the shop spells it into the name shown to the
/// user.
pub fn clean_name(name: String, patterns: &NamePatterns) -> (res: String)
    ensures
        res@ == spec_clean_name(name@),
{
    proof {
        use_type_invariant(patterns);
    }
    let s1 = strip_packaging_words(name.as_str());
    let s2 = replace_all(&patterns.vol, s1.as_str(), "");
    let s3 = cut_promotion(s2);
    let s4 = replace_all(&patterns.gravity, s3.as_str(), "");
    let s5 = replace_all(&patterns.spaces, s4.as_str(), " ");
    trim(s5.as_str())
}

/// A cleaned name neither starts nor ends with white space, and cleaning
/// leaves nothing more for trimming to remove.
pub proof fn lemma_clean_name_trimmed(name: Seq<char>)
    ensures
        spec_clean_name(name).len() > 0 ==> !spec_is_whitespace(spec_clean_name(name)[0])
            && !spec_is_whitespace(spec_clean_name(name).last()),
        spec_trim(spec_clean_name(name)) == spec_clean_name(name),
{
    let s4 = regex_replace_all(
        GRAVITY_PATTERN@,
        spec_cut_promotion(regex_replace_all(VOL_PATTERN@, spec_strip_packaging(name), ""@)),
        ""@,
    );
    let s5 = regex_replace_all(SPACES_PATTERN@, s4, " "@);
    lemma_trim_edges(s5);
    lemma_trim_idempotent(s5);
}

/// How a product is packed.
#[derive(Debug, Clone, Copy, PartialEq, Eq, Structural)]
pub enum PackedAs {
    Bottle,
    Can,
}

/// The packaging text that the shop sent is not one that is known.
#[derive(Debug)]
pub struct UnsupportedPackedAs {
    pub value: String,
}

/// The packaging that the shop's text names, if it names one.
pub open spec fn spec_packed_as(s: Seq<char>) -> Option<PackedAs> {
    if s == "butelka"@ {
        Some(PackedAs::Bottle)
    } else if s == "puszka"@ {
        Some(PackedAs::Can)
    } else {
        None
    }
}

impl PackedAs {
    /// Reads the shop's packaging text: `butelka` is a bottle, `puszka` a
    /// can; any other text is refused.
    pub fn try_from(s: &str) -> (res: Result<PackedAs, UnsupportedPackedAs>)
        ensures
            match res {
                Ok(p) => spec_packed_as(s@) == Some(p),
                Err(e) => spec_packed_as(s@) is None && e.value@ == s@,
            },
    {
        if str_eq(s, "butelka") {
            Ok(PackedAs::Bottle)
        } else if str_eq(s, "puszka") {
            Ok(PackedAs::Can)
        } else {
            Err(UnsupportedPackedAs { value: String::from_str(s) })
        }
    }
}

/// A beer (or cider, or mead) on offer.  The alcohol content and the
/// Untappd rating are kept as the text that the sources give; turning them
/// into numbers is left to the caller.
#[derive(Debug)]
pub struct Beer {
    pub name: String,
    pub style: String,
    pub abv: Option<String>,
    pub url: String,
    pub manufacturer: String,
    pub packed_as: PackedAs,
    pub untappd_score: Option<String>,
}

/// The contents of a `Beer`.
pub struct BeerView {
    pub name: Seq<char>,
    pub style: Seq<char>,
    pub abv: Option<Seq<char>>,
    pub url: Seq<char>,
    pub manufacturer: Seq<char>,
    pub packed_as: PackedAs,
    pub untappd_score: Option<Seq<char>>,
}

impl View for Beer {
    type V = BeerView;

    open spec fn view(&self) -> BeerView {
        BeerView {
            name: self.name@,
            style: self.style@,
            abv: self.abv.deep_view(),
            url: self.url@,
            manufacturer: self.manufacturer@,
            packed_as: self.packed_as,
            untappd_score: self.untappd_score.deep_view(),
        }
    }
}

/// A field that a `Beer` needs was never given to the builder.
#[derive(Debug, Clone, Copy, PartialEq, Eq, Structural)]
pub enum BuildError {
    NoName,
    NoStyle,
    NoUrl,
    NoManufacturer,
    NoPackedAs,
}

/// Collects the fields of a `Beer` one by one.
pub struct BeerBuilder {
    pub name: Option<String>,
    pub style: Option<String>,
    pub abv: Option<String>,
    pub url: Option<String>,
    pub manufacturer: Option<String>,
    pub packed_as: Option<PackedAs>,
}

impl Default for BeerBuilder {
    fn default() -> (res: BeerBuilder)
        ensures
            res.name is None,
            res.style is None,
            res.abv is None,
            res.url is None,
            res.manufacturer is None,
            res.packed_as is None,
    {
        BeerBuilder {
            name: None,
            style: None,
            abv: None,
            url: None,
            manufacturer: None,
            packed_as: None,
        }
    }
}

impl BeerBuilder {
    /// The first required field, in the order name, style, url,
    /// manufacturer, packaging, that has not been given.
    pub open spec fn first_missing(self) -> Option<BuildError> {
        if self.name is None {
            Some(BuildError::NoName)
        } else if self.style is None {
            Some(BuildError::NoStyle)
        } else if self.url is None {
            Some(BuildError::NoUrl)
        } else if self.manufacturer is None {
            Some(BuildError::NoManufacturer)
        } else if self.packed_as is None {
            Some(BuildError::NoPackedAs)
        } else {
            None
        }
    }

    /// Sets the name, cleaned.
    pub fn name(self, name: String, patterns: &NamePatterns) -> (res: BeerBuilder)
        ensures
            res.name.deep_view() == Some(spec_clean_name(name@)),
            res.style == self.style,
            res.abv == self.abv,
            res.url == self.url,
            res.manufacturer == self.manufacturer,
            res.packed_as == self.packed_as,
    {
        let mut b = self;
        b.name = Some(clean_name(name, patterns));
        b
    }

    /// Sets the style.
    pub fn style(self, style: String) -> (res: BeerBuilder)
        ensures
            res.style == Some(style),
            res.name == self.name,
            res.abv == self.abv,
            res.url == self.url,
            res.manufacturer == self.manufacturer,
            res.packed_as == self.packed_as,
    {
        let mut b = self;
        b.style = Some(style);
        b
    }

    /// Sets (or clears) the alcohol content.
    pub fn abv(self, abv: Option<String>) -> (res: BeerBuilder)
        ensures
            res.abv == abv,
            res.name == self.name,
            res.style == self.style,
            res.url == self.url,
            res.manufacturer == self.manufacturer,
            res.packed_as == self.packed_as,
    {
        let mut b = self;
        b.abv = abv;
        b
    }

    /// Sets the shop's URL of the product.
    pub fn url(self, url: String) -> (res: BeerBuilder)
        ensures
            res.url == Some(url),
            res.name == self.name,
            res.style == self.style,
            res.abv == self.abv,
            res.manufacturer == self.manufacturer,
            res.packed_as == self.packed_as,
    {
        let mut b = self;
        b.url = Some(url);
        b
    }

    /// Sets the brewery.
    pub fn manufacturer(self, manufacturer: String) -> (res: BeerBuilder)
        ensures
            res.manufacturer == Some(manufacturer),
            res.name == self.name,
            res.style == self.style,
            res.abv == self.abv,
            res.url == self.url,
            res.packed_as == self.packed_as,
    {
        let mut b = self;
        b.manufacturer = Some(manufacturer);
        b
    }

    /// Sets the packaging.
    pub fn packed_as(self, packed_as: PackedAs) -> (res: BeerBuilder)
        ensures
            res.packed_as == Some(packed_as),
            res.name == self.name,
            res.style == self.style,
            res.abv == self.abv,
            res.url == self.url,
            res.manufacturer == self.manufacturer,
    {
        let mut b = self;
        b.packed_as = Some(packed_as);
        b
    }

    /// Assembles the `Beer`; it has no Untappd rating yet.  Fails on the
    /// first required field that was not given.
    pub fn build(self) -> (res: Result<Beer, BuildError>)
        ensures
            match res {
                Ok(beer) => {
                    &&& self.first_missing() is None
                    &&& beer.name == self.name.unwrap()
                    &&& beer.style == self.style.unwrap()
                    &&& beer.abv == self.abv
                    &&& beer.url == self.url.unwrap()
                    &&& beer.manufacturer == self.manufacturer.unwrap()
                    &&& beer.packed_as == self.packed_as.unwrap()
                    &&& beer.untappd_score is None
                },
                Err(e) => self.first_missing() == Some(e),
            },
    {
        let BeerBuilder { name, style, abv, url, manufacturer, packed_as } = self;
        let name = match name {
            Some(v) => v,
            None => return Err(BuildError::NoName),
        };
        let style = match style {
            Some(v) => v,
            None => return Err(BuildError::NoStyle),
        };
        let url = match url {
            Some(v) => v,
            None => return Err(BuildError::NoUrl),
        };
        let manufacturer = match manufacturer {
            Some(v) => v,
            None => return Err(BuildError::NoManufacturer),
        };
        let packed_as = match packed_as {
            Some(v) => v,
            None => return Err(BuildError::NoPackedAs),
        };
        Ok(Beer { name, style, abv, url, manufacturer, packed_as, untappd_score: None })
    }
}

impl Beer {
    /// An empty builder.
    pub fn builder() -> (res: BeerBuilder)
        ensures
            res.first_missing() == Some(BuildError::NoName),
            res.abv is None,
            res.style is None,
            res.url is None,
            res.manufacturer is None,
            res.packed_as is None,
    {
        BeerBuilder::default()
    }
}

} // verus!

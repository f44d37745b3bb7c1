//! The onemorebeer shop: catalogue categories, the page requests, and the
//! conversion of catalogue items into beer records.

use crate::beer::{
    spec_clean_name, spec_packed_as, Beer, BeerView, BuildError, NamePatterns, PackedAs,
    UnsupportedPackedAs,
};
use crate::text::{
    lemma_decimal_digits, lemma_decimal_injective, spec_decimal, spec_is_digit, spec_strip_suffix, str_eq,
    strip_suffix, usize_to_decimal,
};
use vstd::prelude::*;

verus! {

/// A section of the shop's catalogue.
#[derive(Debug, Clone, Copy, PartialEq, Eq, Structural)]
pub enum Category {
    Beer,
    Mead,
    Cider,
}

impl Category {
    /// The category's name in the shop's search API.
    pub open spec fn spec_param(self) -> Seq<char> {
        match self {
            Category::Beer => "Piwa"@,
            Category::Mead => "Miody_Pitne"@,
            Category::Cider => "Cydry_Wina"@,
        }
    }

    /// The category's part of a cache key.
    pub open spec fn spec_cache_key_part(self) -> Seq<char> {
        match self {
            Category::Beer => "beer"@,
            Category::Mead => "mead"@,
            Category::Cider => "cider"@,
        }
    }

    /// The category's name in the shop's search API.
    pub fn to_param(self) -> (res: &'static str)
        ensures
            res@ == self.spec_param(),
    {
        match self {
            Category::Beer => "Piwa",
            Category::Mead => "Miody_Pitne",
            Category::Cider => "Cydry_Wina",
        }
    }

    /// The category's part of a cache key.
    pub fn to_cache_key_part(self) -> (res: &'static str)
        ensures
            res@ == self.spec_cache_key_part(),
    {
        match self {
            Category::Beer => "beer",
            Category::Mead => "mead",
            Category::Cider => "cider",
        }
    }
}

/// The search endpoint of the shop's catalogue API.
pub const BASE_URL: &'static str = "https://api-prod.onecommerce.shop/api/v1/catalog/app/auth-optional/products/search/items";

/// Best-ranked products first.
pub const SORT: &'static str = "sortCriteria=RANK_DESC";

/// Only products in stock.
pub const FILTER: &'static str = "filtersQuery=availability:true";

/// Forty-five products a page.
pub const PAGE_SIZE: &'static str = "pageSize=45";

/// One page of one category of the catalogue.
#[derive(Debug, Clone, Copy)]
pub struct PageOptions {
    pub page: usize,
    pub category: Category,
}

impl PageOptions {
    /// The URL that asks the shop for this page.
    pub open spec fn spec_url(self) -> Seq<char> {
        BASE_URL@ + "?category="@ + self.category.spec_param() + "&"@ + SORT@ + "&"@ + FILTER@
            + "&"@ + PAGE_SIZE@ + "&pageNumber="@ + spec_decimal(self.page as nat)
    }

    /// The key under which the page is cached: the category's part, a dash,
    /// and the page number.
    pub open spec fn spec_cache_key(self) -> Seq<char> {
        self.category.spec_cache_key_part() + "-"@ + spec_decimal(self.page as nat)
    }

    /// The URL that asks the shop for this page.
    pub fn to_url(self) -> (res: String)
        ensures
            res@ == self.spec_url(),
    {
        let mut url = String::from_str(BASE_URL);
        url.append("?category=");
        url.append(self.category.to_param());
        url.append("&");
        url.append(SORT);
        url.append("&");
        url.append(FILTER);
        url.append("&");
        url.append(PAGE_SIZE);
        url.append("&pageNumber=");
        let page = usize_to_decimal(self.page);
        url.append(page.as_str());
        url
    }

    /// The key under which the page is cached.
    pub fn to_cache_key(self) -> (res: String)
        ensures
            res@ == self.spec_cache_key(),
    {
        let mut key = String::from_str(self.category.to_cache_key_part());
        key.append("-");
        let page = usize_to_decimal(self.page);
        key.append(page.as_str());
        key
    }
}

/// Different pages (or categories) are cached under different keys.
pub proof fn lemma_cache_keys_distinct(a: PageOptions, b: PageOptions)
    ensures
        a.spec_cache_key() == b.spec_cache_key() ==> a.page == b.page && a.category == b.category,
{
    reveal_strlit("beer");
    reveal_strlit("mead");
    reveal_strlit("cider");
    reveal_strlit("-");
    if a.spec_cache_key() == b.spec_cache_key() {
        let ka = a.spec_cache_key();
        let pa = a.category.spec_cache_key_part();
        let pb = b.category.spec_cache_key_part();
        let da = spec_decimal(a.page as nat);
        let db = spec_decimal(b.page as nat);
        lemma_decimal_digits(a.page as nat);
        lemma_decimal_digits(b.page as nat);
        assert(forall|i: int| 0 <= i < pa.len() ==> pa[i] != '-');
        assert(forall|i: int| 0 <= i < pb.len() ==> pb[i] != '-');
        assert(ka[pa.len() as int] == '-');
        assert(ka[pb.len() as int] == '-');
        assert(pa.len() == pb.len()) by {
            if pa.len() < pb.len() {
                assert(ka[pa.len() as int] == pb[pa.len() as int]);
            } else if pb.len() < pa.len() {
                assert(ka[pb.len() as int] == pa[pb.len() as int]);
            }
        }
        assert(pa =~= ka.take(pa.len() as int));
        assert(pb =~= ka.take(pb.len() as int));
        assert(da =~= ka.skip(pa.len() as int + 1));
        assert(db =~= ka.skip(pb.len() as int + 1));
        assert(da == db);
        assert(pa == pb);
        lemma_decimal_injective(a.page as u64, b.page as u64);
        assert(a.page == b.page);
        assert(a.category == b.category) by {
            assert("beer"@[0] != "mead"@[0]);
            assert("beer"@.len() != "cider"@.len());
            assert("mead"@.len() != "cider"@.len());
        }
    }
}

/// Different pages (or categories) are asked for with different URLs.
pub proof fn lemma_urls_distinct(a: PageOptions, b: PageOptions)
    ensures
        a.spec_url() == b.spec_url() ==> a.page == b.page && a.category == b.category,
{
    reveal_strlit("Piwa");
    reveal_strlit("Miody_Pitne");
    reveal_strlit("Cydry_Wina");
    reveal_strlit("&pageNumber=");
    if a.spec_url() == b.spec_url() {
        let u = a.spec_url();
        let head_a = BASE_URL@ + "?category="@ + a.category.spec_param() + "&"@ + SORT@ + "&"@
            + FILTER@ + "&"@ + PAGE_SIZE@ + "&pageNumber="@;
        let head_b = BASE_URL@ + "?category="@ + b.category.spec_param() + "&"@ + SORT@ + "&"@
            + FILTER@ + "&"@ + PAGE_SIZE@ + "&pageNumber="@;
        let da = spec_decimal(a.page as nat);
        let db = spec_decimal(b.page as nat);
        lemma_decimal_digits(a.page as nat);
        lemma_decimal_digits(b.page as nat);
        assert(u == head_a + da);
        assert(u == head_b + db);
        assert(head_a.last() == '=');
        assert(head_b.last() == '=');
        assert(da.len() == db.len()) by {
            if da.len() < db.len() {
                let k = u.len() - da.len() - 1;
                assert(u[k] == head_a.last());
                assert(u[k] == db[k - head_b.len()]);
                assert(spec_is_digit(db[k - head_b.len()]));
            } else if db.len() < da.len() {
                let k = u.len() - db.len() - 1;
                assert(u[k] == head_b.last());
                assert(u[k] == da[k - head_a.len()]);
                assert(spec_is_digit(da[k - head_a.len()]));
            }
        }
        assert(da =~= u.skip(head_a.len() as int));
        assert(db =~= u.skip(head_b.len() as int));
        lemma_decimal_injective(a.page as u64, b.page as u64);
        assert(a.category.spec_param().len() == b.category.spec_param().len());
    }
}

/// A name/value attribute of a catalogue item.
#[derive(Debug)]
pub struct Attribute {
    pub name_code: String,
    pub value_code: String,
}

/// The producer of a catalogue item.
#[derive(Debug)]
pub struct Manufacturer {
    pub name: String,
}

/// One product of the catalogue, as the shop lists it.
#[derive(Debug)]
pub struct Item {
    pub name: String,
    pub url: String,
    pub attributes: Vec<Attribute>,
    pub manufacturer: Manufacturer,
}

/// The index of the first attribute at or after `i` whose name is `key`.
pub open spec fn spec_find_attr_from(attrs: Seq<Attribute>, key: Seq<char>, i: int) -> Option<int>
    decreases attrs.len() - i,
{
    if i < 0 || i >= attrs.len() {
        None
    } else if attrs[i].name_code@ == key {
        Some(i)
    } else {
        spec_find_attr_from(attrs, key, i + 1)
    }
}

/// A found attribute index is in range and names `key`.
pub proof fn lemma_find_attr_from(attrs: Seq<Attribute>, key: Seq<char>, i: int)
    ensures
        spec_find_attr_from(attrs, key, i) matches Some(k) ==> i <= k < attrs.len()
            && attrs[k].name_code@ == key,
    decreases attrs.len() - i,
{
    if i < 0 || i >= attrs.len() {
    } else if attrs[i].name_code@ == key {
    } else {
        lemma_find_attr_from(attrs, key, i + 1);
    }
}

/// The value of the first attribute named `key`, if any.
pub open spec fn spec_attr_value(item: Item, key: Seq<char>) -> Option<Seq<char>> {
    match spec_find_attr_from(item.attributes@, key, 0) {
        Some(i) => Some(item.attributes@[i].value_code@),
        None => None,
    }
}

/// The item's alcohol content: the `moc` attribute without its `%` sign.
pub open spec fn spec_item_abv(item: Item) -> Option<Seq<char>> {
    match spec_attr_value(item, "moc"@) {
        Some(v) => spec_strip_suffix(v, "%"@),
        None => None,
    }
}

/// The item's style: the `styl` attribute, or `unknown`.
pub open spec fn spec_item_style(item: Item) -> Seq<char> {
    match spec_attr_value(item, "styl"@) {
        Some(v) => v,
        None => "unknown"@,
    }
}

/// The attribute lookup finds the first attribute named `key`, wherever it
/// sits, and nothing only when no attribute has that name.
pub proof fn lemma_find_attr_first(attrs: Seq<Attribute>, key: Seq<char>, i: int, k: int)
    requires
        0 <= i,
    ensures
        i <= k < attrs.len() && attrs[k].name_code@ == key && (forall|j: int|
            i <= j < k ==> (#[trigger] attrs[j]).name_code@ != key) ==> spec_find_attr_from(attrs, key, i)
            == Some(k),
        (forall|j: int| i <= j < attrs.len() ==> (#[trigger] attrs[j]).name_code@ != key)
            ==> spec_find_attr_from(attrs, key, i) is None,
    decreases attrs.len() - i,
{
    if i < attrs.len() {
        lemma_find_attr_first(attrs, key, i + 1, k);
    }
}

/// The style is the value of the first attribute named `styl`, wherever it
/// sits in the list, and `unknown` only when no attribute is named `styl`.
pub proof fn lemma_item_style(item: Item, k: int)
    ensures
        0 <= k < item.attributes@.len() && item.attributes@[k].name_code@ == "styl"@ && (forall|j: int|
            0 <= j < k ==> (#[trigger] item.attributes@[j]).name_code@ != "styl"@)
            ==> spec_item_style(item) == item.attributes@[k].value_code@,
        (forall|j: int|
            0 <= j < item.attributes@.len() ==> (#[trigger] item.attributes@[j]).name_code@ != "styl"@)
            ==> spec_item_style(item) == "unknown"@,
{
    lemma_find_attr_first(item.attributes@, "styl"@, 0, k);
}

/// The alcohol content comes from the first attribute named `moc` and the
/// packaging from the first attribute named `rodzaj_opakowania`, wherever
/// they sit in the list.
pub proof fn lemma_item_abv_and_packaging(item: Item, k: int, m: int)
    ensures
        0 <= k < item.attributes@.len() && item.attributes@[k].name_code@ == "moc"@ && (forall|j: int|
            0 <= j < k ==> (#[trigger] item.attributes@[j]).name_code@ != "moc"@)
            ==> spec_item_abv(item) == spec_strip_suffix(item.attributes@[k].value_code@, "%"@),
        0 <= m < item.attributes@.len() && item.attributes@[m].name_code@ == "rodzaj_opakowania"@
            && (forall|j: int|
            0 <= j < m ==> (#[trigger] item.attributes@[j]).name_code@ != "rodzaj_opakowania"@)
            ==> spec_item_packed_as(item) == match spec_packed_as(item.attributes@[m].value_code@) {
            Some(p) => Ok::<PackedAs, BeerErrorView>(p),
            None => Err(BeerErrorView::UnsupportedPackedAs(item.attributes@[m].value_code@)),
        },
{
    lemma_find_attr_first(item.attributes@, "moc"@, 0, k);
    lemma_find_attr_first(item.attributes@, "rodzaj_opakowania"@, 0, m);
}

/// Why a catalogue item could not become a beer record.
#[derive(Debug)]
pub enum BeerError {
    /// The item has no `rodzaj_opakowania` attribute.
    NoPackedAsData,
    /// Its `rodzaj_opakowania` attribute names no known packaging.
    UnsupportedPackedAs(UnsupportedPackedAs),
    /// A required field was missing when the record was assembled.
    Incomplete(BuildError),
}

/// The contents of a `BeerError`.
pub enum BeerErrorView {
    NoPackedAsData,
    UnsupportedPackedAs(Seq<char>),
    Incomplete(BuildError),
}

impl View for BeerError {
    type V = BeerErrorView;

    open spec fn view(&self) -> BeerErrorView {
        match self {
            BeerError::NoPackedAsData => BeerErrorView::NoPackedAsData,
            BeerError::UnsupportedPackedAs(u) => BeerErrorView::UnsupportedPackedAs(u.value@),
            BeerError::Incomplete(e) => BeerErrorView::Incomplete(*e),
        }
    }
}

/// The item's packaging, from its `rodzaj_opakowania` attribute.
pub open spec fn spec_item_packed_as(item: Item) -> Result<PackedAs, BeerErrorView> {
    match spec_attr_value(item, "rodzaj_opakowania"@) {
        None => Err(BeerErrorView::NoPackedAsData),
        Some(v) => match spec_packed_as(v) {
            Some(p) => Ok(p),
            None => Err(BeerErrorView::UnsupportedPackedAs(v)),
        },
    }
}

/// The beer record that a catalogue item gives, or why it gives none.
pub open spec fn spec_beer_from_item(item: Item) -> Result<BeerView, BeerErrorView> {
    match spec_item_packed_as(item) {
        Err(e) => Err(e),
        Ok(p) => Ok(
            BeerView {
                name: spec_clean_name(item.name@),
                style: spec_item_style(item),
                abv: spec_item_abv(item),
                url: item.url@,
                manufacturer: item.manufacturer.name@,
                packed_as: p,
                untappd_score: None,
            },
        ),
    }
}

impl Item {
    /// The index of the first attribute named `key`.
    fn find_attribute(&self, key: &str) -> (res: Option<usize>)
        ensures
            match res {
                Some(i) => spec_find_attr_from(self.attributes@, key@, 0) == Some(i as int),
                None => spec_find_attr_from(self.attributes@, key@, 0) is None,
            },
    {
        let n = self.attributes.len();
        let mut i: usize = 0;
        while i < n
            invariant
                i <= n,
                n == self.attributes@.len(),
                spec_find_attr_from(self.attributes@, key@, 0) == spec_find_attr_from(
                    self.attributes@,
                    key@,
                    i as int,
                ),
            decreases n - i,
        {
            if str_eq(self.attributes[i].name_code.as_str(), key) {
                return Some(i);
            }
            i = i + 1;
        }
        None
    }

    /// The alcohol content as the shop writes it, without the `%` sign.
    pub fn abv(&self) -> (res: Option<String>)
        ensures
            res.deep_view() == spec_item_abv(*self),
    {
        proof {
            lemma_find_attr_from(self.attributes@, "moc"@, 0);
        }
        match self.find_attribute("moc") {
            Some(i) => strip_suffix(self.attributes[i].value_code.as_str(), "%"),
            None => None,
        }
    }

    /// The beer style, or `unknown`.
    pub fn style(&self) -> (res: String)
        ensures
            res@ == spec_item_style(*self),
    {
        proof {
            lemma_find_attr_from(self.attributes@, "styl"@, 0);
        }
        match self.find_attribute("styl") {
            Some(i) => String::from_str(self.attributes[i].value_code.as_str()),
            None => String::from_str("unknown"),
        }
    }

    /// The packaging, which every record needs.
    pub fn packed_as(&self) -> (res: Result<PackedAs, BeerError>)
        ensures
            match res {
                Ok(p) => spec_item_packed_as(*self) == Ok::<PackedAs, BeerErrorView>(p),
                Err(e) => spec_item_packed_as(*self) == Err::<PackedAs, BeerErrorView>(e@),
            },
    {
        proof {
            lemma_find_attr_from(self.attributes@, "rodzaj_opakowania"@, 0);
        }
        match self.find_attribute("rodzaj_opakowania") {
            None => Err(BeerError::NoPackedAsData),
            Some(i) => match PackedAs::try_from(self.attributes[i].value_code.as_str()) {
                Ok(p) => Ok(p),
                Err(u) => Err(BeerError::UnsupportedPackedAs(u)),
            },
        }
    }
}

impl Beer {
    /// Turns a catalogue item into a beer record with a cleaned name; fails
    /// when the item's packaging is missing or unknown.
    pub fn try_from(item: Item, patterns: &NamePatterns) -> (res: Result<Beer, BeerError>)
        ensures
            match res {
                Ok(b) => spec_beer_from_item(item) == Ok::<BeerView, BeerErrorView>(b@),
                Err(e) => spec_beer_from_item(item) == Err::<BeerView, BeerErrorView>(e@),
            },
    {
        let style = item.style();
        let abv = item.abv();
        let packed_as = match item.packed_as() {
            Ok(p) => p,
            Err(e) => return Err(e),
        };
        let Item { name, url, attributes: _, manufacturer } = item;
        let built = Beer::builder().style(style).abv(abv).packed_as(packed_as).name(
            name,
            patterns,
        ).url(url).manufacturer(manufacturer.name).build();
        match built {
            Ok(b) => Ok(b),
            Err(e) => Err(BeerError::Incomplete(e)),
        }
    }
}

/// Page numbers of a category, from one up to the last page.
pub open spec fn spec_pages(last_page: nat) -> Seq<usize> {
    Seq::new(last_page, |i: int| (i + 1) as usize)
}

/// Every page from one to the last page is listed once, in order.
pub proof fn lemma_pages(last_page: usize)
    ensures
        spec_pages(last_page as nat).len() == last_page,
        forall|k: int| 0 <= k < last_page ==> #[trigger] spec_pages(last_page as nat)[k] == k + 1,
{
}

/// The records that the items give, in the items' order, leaving out the
/// items that give none.
pub open spec fn spec_beers_from_items(items: Seq<Item>) -> Seq<BeerView>
    decreases items.len(),
{
    if items.len() == 0 {
        Seq::empty()
    } else {
        let rest = spec_beers_from_items(items.drop_last());
        match spec_beer_from_item(items.last()) {
            Ok(b) => rest.push(b),
            Err(_) => rest,
        }
    }
}

/// Why each refused item was refused, in the items' order.
pub open spec fn spec_refusals(items: Seq<Item>) -> Seq<BeerErrorView>
    decreases items.len(),
{
    if items.len() == 0 {
        Seq::empty()
    } else {
        let rest = spec_refusals(items.drop_last());
        match spec_beer_from_item(items.last()) {
            Ok(_) => rest,
            Err(e) => rest.push(e),
        }
    }
}

/// Every item gives either a record or a refusal.
pub proof fn lemma_every_item_accounted(items: Seq<Item>)
    ensures
        spec_beers_from_items(items).len() + spec_refusals(items).len() == items.len(),
    decreases items.len(),
{
    if items.len() > 0 {
        lemma_every_item_accounted(items.drop_last());
    }
}

/// Loading of a whole category.
pub struct Repository;

impl Repository {
    /// The page numbers `1..=last_page`.
    pub fn pages(last_page: usize) -> (res: Vec<usize>)
        ensures
            res@ == spec_pages(last_page as nat),
            res@.len() == last_page,
            forall|k: int| 0 <= k < last_page ==> #[trigger] res@[k] == k + 1,
    {
        let mut pages: Vec<usize> = Vec::new();
        let mut i: usize = 0;
        while i < last_page
            invariant
                i <= last_page,
                pages@ =~= spec_pages(i as nat),
            decreases last_page - i,
        {
            i = i + 1;
            pages.push(i);
        }
        pages
    }

    /// Turns the items of a page into records, keeping the refusals apart.
    pub fn collect_beers(items: Vec<Item>, patterns: &NamePatterns) -> (res: (
        Vec<Beer>,
        Vec<BeerError>,
    ))
        ensures
            res.0@.map_values(|b: Beer| b@) == spec_beers_from_items(items@),
            res.1@.map_values(|e: BeerError| e@) == spec_refusals(items@),
    {
        let ghost all = items@;
        let mut items = items;
        let mut beers: Vec<Beer> = Vec::new();
        let mut errors: Vec<BeerError> = Vec::new();
        let n = items.len();
        let mut i: usize = 0;
        assert(all.take(0) =~= Seq::<Item>::empty());
        while i < n
            invariant
                i <= n,
                n == all.len(),
                items@ == all.skip(i as int),
                beers@.map_values(|b: Beer| b@) == spec_beers_from_items(all.take(i as int)),
                errors@.map_values(|e: BeerError| e@) == spec_refusals(all.take(i as int)),
            decreases n - i,
        {
            let item = items.remove(0);
            assert(item == all[i as int]);
            assert(all.take(i + 1).drop_last() =~= all.take(i as int));
            assert(all.take(i + 1).last() == all[i as int]);
            assert(items@ =~= all.skip(i + 1));
            match Beer::try_from(item, patterns) {
                Ok(b) => {
                    beers.push(b);
                },
                Err(e) => {
                    errors.push(e);
                },
            }
            assert(beers@.map_values(|b: Beer| b@) =~= spec_beers_from_items(all.take(i + 1)));
            assert(errors@.map_values(|e: BeerError| e@) =~= spec_refusals(all.take(i + 1)));
            i = i + 1;
        }
        assert(all.take(n as int) =~= all);
        (beers, errors)
    }
}

} // verus!

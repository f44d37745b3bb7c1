use onemorebeer_ui::batch::{chunk_ranges, progress_total};
use onemorebeer_ui::beer::{Beer, NamePatterns, PackedAs};
use onemorebeer_ui::onemorebeer::{
    Attribute, BeerError, Category, Item, Manufacturer, PageOptions, Repository,
};

fn attr(name: &str, value: &str) -> Attribute {
    Attribute { name_code: name.to_string(), value_code: value.to_string() }
}

fn item(name: &str, attrs: Vec<Attribute>) -> Item {
    Item {
        name: name.to_string(),
        url: format!("/{}", name.to_lowercase()),
        attributes: attrs,
        manufacturer: Manufacturer { name: "Browar".to_string() },
    }
}

#[test]
fn category_parameters() {
    assert_eq!(Category::Beer.to_param(), "Piwa");
    assert_eq!(Category::Mead.to_param(), "Miody_Pitne");
    assert_eq!(Category::Cider.to_param(), "Cydry_Wina");
    assert_eq!(Category::Beer.to_cache_key_part(), "beer");
    assert_eq!(Category::Mead.to_cache_key_part(), "mead");
    assert_eq!(Category::Cider.to_cache_key_part(), "cider");
}

#[test]
fn page_url() {
    let opts = PageOptions { page: 3, category: Category::Cider };
    assert_eq!(
        opts.to_url(),
        "https://api-prod.onecommerce.shop/api/v1/catalog/app/auth-optional/products/search/items\
?category=Cydry_Wina&sortCriteria=RANK_DESC&filtersQuery=availability:true&pageSize=45&pageNumber=3"
    );
}

#[test]
fn page_cache_key() {
    assert_eq!(PageOptions { page: 7, category: Category::Mead }.to_cache_key(), "mead-7");
    assert_eq!(PageOptions { page: 120, category: Category::Beer }.to_cache_key(), "beer-120");
}

#[test]
fn page_cache_keys_are_distinct() {
    let mut keys = Vec::new();
    for category in [Category::Beer, Category::Mead, Category::Cider] {
        for page in [0usize, 1, 2, 10, 11, 12, 101] {
            keys.push(PageOptions { page, category }.to_cache_key());
        }
    }
    let n = keys.len();
    keys.sort();
    keys.dedup();
    assert_eq!(keys.len(), n);
}

#[test]
fn item_abv() {
    assert_eq!(item("a", vec![attr("moc", "5,5%")]).abv().as_deref(), Some("5,5"));
    assert_eq!(item("a", vec![attr("moc", "5,5")]).abv(), None);
    assert_eq!(item("a", vec![attr("styl", "IPA")]).abv(), None);
    assert_eq!(item("a", vec![attr("moc", "6%"), attr("moc", "7%")]).abv().as_deref(), Some("6"));
}

#[test]
fn item_style() {
    assert_eq!(item("a", vec![attr("styl", "Stout")]).style(), "Stout");
    assert_eq!(item("a", vec![]).style(), "unknown");
    assert_eq!(item("a", vec![attr("Styl", "Stout")]).style(), "unknown");
}

#[test]
fn item_packed_as() {
    let ok = item("a", vec![attr("rodzaj_opakowania", "puszka")]);
    assert_eq!(ok.packed_as().unwrap(), PackedAs::Can);
    let missing = item("a", vec![attr("styl", "x")]);
    assert!(matches!(missing.packed_as(), Err(BeerError::NoPackedAsData)));
    let bad = item("a", vec![attr("rodzaj_opakowania", "karton")]);
    match bad.packed_as() {
        Err(BeerError::UnsupportedPackedAs(u)) => assert_eq!(u.value, "karton"),
        other => panic!("unexpected {:?}", other),
    }
}

#[test]
fn item_to_beer() {
    let p = NamePatterns::new().unwrap();
    let it = item(
        "Porter BUTELKA 0,5 L",
        vec![attr("styl", "Porter"), attr("moc", "9%"), attr("rodzaj_opakowania", "butelka")],
    );
    let beer = Beer::try_from(it, &p).unwrap();
    assert_eq!(beer.name, "Porter");
    assert_eq!(beer.style, "Porter");
    assert_eq!(beer.abv.as_deref(), Some("9"));
    assert_eq!(beer.url, "/porter butelka 0,5 l");
    assert_eq!(beer.manufacturer, "Browar");
    assert_eq!(beer.packed_as, PackedAs::Bottle);
    assert_eq!(beer.untappd_score, None);

    let refused = item("Kvass", vec![attr("styl", "x")]);
    assert!(matches!(Beer::try_from(refused, &p), Err(BeerError::NoPackedAsData)));
}

#[test]
fn items_are_collected_in_order() {
    let p = NamePatterns::new().unwrap();
    let items = vec![
        item("One", vec![attr("rodzaj_opakowania", "butelka")]),
        item("Two", vec![]),
        item("Three", vec![attr("rodzaj_opakowania", "puszka")]),
        item("Four", vec![attr("rodzaj_opakowania", "beczka")]),
    ];
    let (beers, errors) = Repository::collect_beers(items, &p);
    let names: Vec<&str> = beers.iter().map(|b| b.name.as_str()).collect();
    assert_eq!(names, vec!["One", "Three"]);
    assert_eq!(errors.len(), 2);
    assert!(matches!(errors[0], BeerError::NoPackedAsData));
    assert!(matches!(&errors[1], BeerError::UnsupportedPackedAs(u) if u.value == "beczka"));
}

#[test]
fn page_numbers() {
    assert_eq!(Repository::pages(0), Vec::<usize>::new());
    assert_eq!(Repository::pages(1), vec![1]);
    assert_eq!(Repository::pages(4), vec![1, 2, 3, 4]);
}

#[test]
fn chunks_match_slice_chunks() {
    for len in [0usize, 1, 4, 5, 6, 10, 12, 41] {
        for size in [1usize, 5, 20] {
            let v: Vec<usize> = (0..len).collect();
            let expected: Vec<(usize, usize)> = v
                .chunks(size)
                .map(|c| (c[0], c[c.len() - 1] + 1))
                .collect();
            assert_eq!(chunk_ranges(len, size), expected, "len {} size {}", len, size);
        }
    }
}

#[test]
fn progress_totals() {
    assert_eq!(progress_total(12, 5), 3);
    assert_eq!(progress_total(10, 5), 3);
    assert_eq!(progress_total(0, 20), 1);
    assert_eq!(progress_total(41, 20), 3);
}

#[test]
fn page_urls_are_distinct() {
    let mut urls = Vec::new();
    for category in [Category::Beer, Category::Mead, Category::Cider] {
        for page in [0usize, 1, 2, 10, 11, 12, 101] {
            urls.push(PageOptions { page, category }.to_url());
        }
    }
    let n = urls.len();
    urls.sort();
    urls.dedup();
    assert_eq!(urls.len(), n);
}

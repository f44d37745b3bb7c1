use onemorebeer_ui::beer::{
    clean_name, cut_promotion, strip_packaging_words, Beer, BeerBuilder, BuildError,
    NamePatterns, PackedAs,
};

fn patterns() -> NamePatterns {
    NamePatterns::new().expect("name patterns compile")
}

#[test]
fn packaging_words_are_removed() {
    assert_eq!(strip_packaging_words("PIWO BUT. 0,5 L"), "PIWO  0,5 L");
    assert_eq!(strip_packaging_words("PIWO BUTELKA"), "PIWO ");
    assert_eq!(strip_packaging_words("PIWO PUSZKA 0%"), "PIWO  ");
    assert_eq!(strip_packaging_words("Lager -20%"), "Lager -2");
}

#[test]
fn promotion_is_cut() {
    assert_eq!(cut_promotion("Lager  PROMOCJA -20".to_string()), "Lager");
    assert_eq!(cut_promotion("Lager ".to_string()), "Lager ");
}

#[test]
fn names_are_cleaned() {
    let p = patterns();
    assert_eq!(clean_name("Żywiec 12° 0,5 L BUTELKA".to_string(), &p), "Żywiec");
    assert_eq!(clean_name("PIWO BUT. 0,5 L PROMOCJA xyz".to_string(), &p), "PIWO");
    assert_eq!(clean_name("Piwo 0% 0,5 L".to_string(), &p), "Piwo");
    assert_eq!(clean_name("Lager PROMOCJA -20% 0,5 L".to_string(), &p), "Lager");
    assert_eq!(clean_name("  Ale   Pale  15,5°  PUSZKA 0.33 L".to_string(), &p), "Ale Pale");
    assert_eq!(clean_name("Stout".to_string(), &p), "Stout");
    assert_eq!(clean_name("".to_string(), &p), "");
}

#[test]
fn cleaned_names_are_trimmed() {
    let p = patterns();
    for raw in ["  x  ", "BUTELKA", "\u{3000}Porter 0,5 L\t", "a  PROMOCJA"] {
        let cleaned = clean_name(raw.to_string(), &p);
        assert_eq!(cleaned, cleaned.trim());
    }
}

#[test]
fn packed_as_is_read() {
    assert_eq!(PackedAs::try_from("butelka").unwrap(), PackedAs::Bottle);
    assert_eq!(PackedAs::try_from("puszka").unwrap(), PackedAs::Can);
    let err = PackedAs::try_from("Butelka").unwrap_err();
    assert_eq!(err.value, "Butelka");
    assert_eq!(PackedAs::try_from("").unwrap_err().value, "");
}

#[test]
fn build_reports_first_missing_field() {
    let p = patterns();
    assert_eq!(Beer::builder().build().unwrap_err(), BuildError::NoName);
    let b = Beer::builder().name("x".to_string(), &p);
    assert_eq!(b.build().unwrap_err(), BuildError::NoStyle);
    let b = Beer::builder().name("x".to_string(), &p).style("IPA".to_string());
    assert_eq!(b.build().unwrap_err(), BuildError::NoUrl);
    let b = Beer::builder()
        .name("x".to_string(), &p)
        .style("IPA".to_string())
        .url("/x".to_string());
    assert_eq!(b.build().unwrap_err(), BuildError::NoManufacturer);
    let b = Beer::builder()
        .name("x".to_string(), &p)
        .style("IPA".to_string())
        .url("/x".to_string())
        .manufacturer("Brewery".to_string());
    assert_eq!(b.build().unwrap_err(), BuildError::NoPackedAs);
    let b = BeerBuilder::default().packed_as(PackedAs::Can);
    assert_eq!(b.build().unwrap_err(), BuildError::NoName);
}

#[test]
fn build_assembles_record() {
    let p = patterns();
    let beer = Beer::builder()
        .name("Porter BUTELKA".to_string(), &p)
        .style("Porter".to_string())
        .abv(Some("9,5".to_string()))
        .url("/porter".to_string())
        .manufacturer("Browar".to_string())
        .packed_as(PackedAs::Bottle)
        .build()
        .unwrap();
    assert_eq!(beer.name, "Porter");
    assert_eq!(beer.style, "Porter");
    assert_eq!(beer.abv.as_deref(), Some("9,5"));
    assert_eq!(beer.url, "/porter");
    assert_eq!(beer.manufacturer, "Browar");
    assert_eq!(beer.packed_as, PackedAs::Bottle);
    assert_eq!(beer.untappd_score, None);
}

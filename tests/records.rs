use rentals::filter::{should_include_property, sources_to_search, SearchParams};
use rentals::model::{Source, StandardizedProperty};
use rentals::pipeline::{accept_record, normalize_batches, parse_record, search, SourceBatch};
use rentals::price::Amount;
use rentals::record::{get_bool, get_double, get_group, get_list, get_long, get_string, Record, Value};
use rentals::sources::{
    collect_photos, parse_daft_row, parse_myhome_row, parse_property_ie_row, PropertyIEListing,
};

const STAMP: &str = "2024-05-01T10:00:00+00:00";

fn s(t: &str) -> Value {
    Value::Str(t.to_string())
}

fn row(fields: Vec<Value>) -> Record {
    Record { fields }
}

fn property_ie_row(address: &str, price: &str, id: &str) -> Record {
    row(vec![s(address), s(price), s(id)])
}

fn myhome_fields() -> Vec<Value> {
    let mut fields: Vec<Value> = (0..64).map(|_| Value::Null).collect();
    fields[0] = Value::Long(987);
    fields[3] = s("2024-04-02");
    fields[6] = s("01 555 0100");
    fields[7] = s("lettings@example.ie");
    fields[8] = s("Example Lettings");
    fields[9] = s("1 Main St");
    fields[11] = s("2024-03-01");
    fields[28] = Value::Bool(true);
    fields[31] = Value::Bool(true);
    fields[36] = Value::Long(2);
    fields[37] = s("€1,850 per month");
    fields[40] = Value::Double(75.5f64.to_bits());
    fields[42] = s("Apartment 4, Dublin 8");
    fields[46] = s("Apartment");
    fields[48] = Value::Long(1);
    fields[49] = s("B2");
    fields[55] = s("/apartment-4-dublin-8");
    fields[61] = s("https://img/main.jpg");
    fields[63] = Value::List(vec![
        s("https://img/a.jpg"),
        s("https://img/main.jpg"),
        s("https://img/a.jpg"),
        Value::Long(5),
        s("https://img/b.jpg"),
    ]);
    fields
}

fn daft_listing() -> Vec<Value> {
    let mut l: Vec<Value> = (0..24).map(|_| Value::Null).collect();
    l[0] = s("€2,100 per month");
    l[1] = Value::Group(row(vec![Value::Null, Value::Null, s("A3")]));
    l[2] = s("House");
    l[3] = s("555");
    l[5] = s("12 Oak Road, Cork");
    l[23] = s("/for-rent/house-12-oak-road-cork/555");
    l
}

fn params() -> SearchParams {
    SearchParams {
        source: None,
        min_price: None,
        max_price: None,
        bedrooms: None,
        property_type: None,
        ber_rating: None,
    }
}

#[test]
fn accessors_return_none_on_mismatch_or_range() {
    let fs = vec![s("x"), Value::Long(3), Value::Bool(true), Value::Double(7), Value::List(vec![])];
    assert_eq!(get_string(&fs, 0), Some("x".to_string()));
    assert_eq!(get_string(&fs, 1), None);
    assert_eq!(get_string(&fs, 9), None);
    assert_eq!(get_long(&fs, 1), Some(3));
    assert_eq!(get_long(&fs, 0), None);
    assert_eq!(get_bool(&fs, 2), Some(true));
    assert_eq!(get_double(&fs, 3), Some(7));
    assert!(get_group(&fs, 4).is_none());
    assert_eq!(get_list(&fs, 4).map(|l| l.len()), Some(0));
    assert_eq!(get_list(&fs, 5).map(|l| l.len()), None);
}

#[test]
fn property_ie_end_to_end() {
    let p = parse_property_ie_row(&property_ie_row("  Test Address ", "€1,500 monthly", "12345"), STAMP)
        .expect("parses");
    assert_eq!(p.property_id, "property_12345");
    assert_eq!(p.price.amount.micros, 1_500_000_000);
    assert_eq!(p.source.name(), "property");
    assert_eq!(p.address.display_address, "Test Address");
    assert_eq!(p.price.currency, "EUR");
    assert_eq!(p.price.frequency.as_deref(), Some("month"));
    assert!(p.price.price_changes.is_empty());
    assert_eq!(p.listing_type, "rent");
    assert_eq!(p.status, "active");
    assert_eq!(p.created_date, STAMP);
    assert_eq!(p.updated_date, STAMP);
    assert_eq!(p.property_type, "");
    assert_eq!(p.bedrooms, None);
    assert!(p.photos.is_empty());
    assert!(p.agent.is_none());
}

#[test]
fn property_ie_trims_unicode_white_space() {
    let listing = PropertyIEListing {
        address: "\u{3000}Quay Street\u{a0}".to_string(),
        price: "1500".to_string(),
        id: "7".to_string(),
    };
    let p = StandardizedProperty::from_property_ie(listing, STAMP).unwrap();
    assert_eq!(p.address.display_address, "Quay Street");
}

#[test]
fn blank_identifiers_fail() {
    assert!(parse_property_ie_row(&property_ie_row("A", "1500", "  "), STAMP).is_none());
    let mut l = daft_listing();
    l[3] = s(" \t");
    assert!(parse_daft_row(&row(vec![Value::Group(row(l))]), STAMP).is_none());
}

#[test]
fn property_ie_needs_identifier_and_price() {
    assert!(parse_property_ie_row(&property_ie_row("A", "POA", "1"), STAMP).is_none());
    assert!(parse_property_ie_row(&property_ie_row("A", "1500", ""), STAMP).is_none());
    assert!(parse_property_ie_row(&row(vec![s("A"), s("1500")]), STAMP).is_none());
    assert!(parse_property_ie_row(&row(vec![s("A"), s("1500"), Value::Long(3)]), STAMP).is_none());
}

#[test]
fn myhome_record_maps_every_field() {
    let p = parse_myhome_row(&row(myhome_fields()), STAMP).expect("parses");
    assert_eq!(p.property_id, "myhome_987");
    assert_eq!(p.source_id, "987");
    assert_eq!(p.source, Source::MyHome);
    assert_eq!(p.price.amount, Amount::from_units(1850));
    assert_eq!(p.address.display_address, "Apartment 4, Dublin 8");
    assert_eq!(p.property_type, "Apartment");
    assert_eq!(p.bedrooms, Some(2));
    assert_eq!(p.bathrooms, Some(1));
    let size = p.size.as_ref().expect("size");
    assert_eq!(f64::from_bits(size.value_bits), 75.5);
    assert_eq!(size.unit, "square_meters");
    assert_eq!(p.ber_rating.as_deref(), Some("B2"));
    assert_eq!(p.created_date, "2024-03-01");
    assert_eq!(p.updated_date, "2024-04-02");
    assert_eq!(p.status, "active");
    assert!(p.has_video);
    assert_eq!(p.seo_url.as_deref(), Some("/apartment-4-dublin-8"));
    let agent = p.agent.as_ref().expect("agent");
    assert_eq!(agent.name, "Example Lettings");
    assert_eq!(agent.phone, "01 555 0100");
    assert_eq!(agent.email, "lettings@example.ie");
    assert_eq!(agent.address, "1 Main St");
}

#[test]
fn myhome_primary_photo_listed_once() {
    let p = parse_myhome_row(&row(myhome_fields()), STAMP).unwrap();
    let urls: Vec<(&str, bool)> = p.photos.iter().map(|ph| (ph.url.as_str(), ph.is_main)).collect();
    assert_eq!(
        urls,
        vec![
            ("https://img/main.jpg", true),
            ("https://img/a.jpg", false),
            ("https://img/b.jpg", false),
        ]
    );
}

#[test]
fn photos_without_primary_keep_list_order() {
    let list = vec![s("u1"), s("u2"), s("u1")];
    let photos = collect_photos(None, Some(&list));
    let urls: Vec<&str> = photos.iter().map(|p| p.url.as_str()).collect();
    assert_eq!(urls, vec!["u1", "u2"]);
    assert!(photos.iter().all(|p| !p.is_main));
    assert!(collect_photos(None, None).is_empty());
}

#[test]
fn myhome_absent_fields_stay_absent_and_large_counts_stay() {
    let mut fields: Vec<Value> = (0..64).map(|_| Value::Null).collect();
    fields[0] = Value::Long(-4);
    fields[37] = s("900");
    fields[49] = s("");
    fields[36] = Value::Long(5_000_000_000);
    let p = parse_myhome_row(&row(fields), STAMP).unwrap();
    assert_eq!(p.property_id, "myhome_-4");
    assert_eq!(p.bedrooms, Some(5_000_000_000));
    assert_eq!(p.bathrooms, None);
    assert!(p.size.is_none());
    assert_eq!(p.ber_rating, None);
    assert_eq!(p.status, "active");
    assert_eq!(p.created_date, STAMP);
    assert!(!p.has_video);
    assert!(p.photos.is_empty());
    assert_eq!(p.seo_url, None);
    assert_eq!(p.agent.as_ref().map(|a| a.name.as_str()), Some(""));
}

#[test]
fn myhome_inactive_flag_and_failures() {
    let mut fields = myhome_fields();
    fields[28] = Value::Bool(false);
    assert_eq!(parse_myhome_row(&row(fields), STAMP).unwrap().status, "inactive");
    let mut no_id = myhome_fields();
    no_id[0] = s("987");
    assert!(parse_myhome_row(&row(no_id), STAMP).is_none());
    let mut no_price = myhome_fields();
    no_price[37] = s("Price on application");
    assert!(parse_myhome_row(&row(no_price), STAMP).is_none());
}

#[test]
fn daft_record_reads_the_listing_group() {
    let p = parse_daft_row(&row(vec![Value::Group(row(daft_listing()))]), STAMP).expect("parses");
    assert_eq!(p.property_id, "daft_555");
    assert_eq!(p.source, Source::Daft);
    assert_eq!(p.price.amount, Amount::from_units(2100));
    assert_eq!(p.address.display_address, "12 Oak Road, Cork");
    assert_eq!(p.property_type, "House");
    assert_eq!(p.ber_rating.as_deref(), Some("A3"));
    assert_eq!(p.seo_url.as_deref(), Some("/for-rent/house-12-oak-road-cork/555"));
    assert_eq!(p.created_date, STAMP);
    assert!(p.agent.is_none());
}

#[test]
fn daft_falls_back_to_brochure_and_defaults() {
    let mut l = daft_listing();
    l[5] = Value::Null;
    l[2] = Value::Null;
    l[1] = Value::Null;
    l[23] = Value::Null;
    let brochure = row(vec![s("https://brochure/555.pdf")]);
    let brochures = row(vec![Value::Group(brochure)]);
    l[8] = Value::Group(row(vec![Value::Group(brochures)]));
    let p = parse_daft_row(&row(vec![Value::Group(row(l))]), STAMP).unwrap();
    assert_eq!(p.address.display_address, "Address not available");
    assert_eq!(p.property_type, "");
    assert_eq!(p.ber_rating, None);
    assert_eq!(p.seo_url.as_deref(), Some("https://brochure/555.pdf"));
}

#[test]
fn daft_failures() {
    assert!(parse_daft_row(&row(vec![s("not a group")]), STAMP).is_none());
    let mut l = daft_listing();
    l[3] = Value::Long(555);
    assert!(parse_daft_row(&row(vec![Value::Group(row(l))]), STAMP).is_none());
    let mut l = daft_listing();
    l[0] = s("POA");
    assert!(parse_daft_row(&row(vec![Value::Group(row(l))]), STAMP).is_none());
}

#[test]
fn parsing_twice_gives_equal_properties() {
    let r = row(myhome_fields());
    let a = parse_record(Source::MyHome, &r, STAMP).unwrap();
    let b = parse_record(Source::MyHome, &r, STAMP).unwrap();
    assert_eq!(format!("{:?}", a), format!("{:?}", b));
}

fn with(price_units: u64, bedrooms: Option<i64>) -> StandardizedProperty {
    let mut fields = myhome_fields();
    fields[37] = s(&price_units.to_string());
    fields[36] = match bedrooms {
        Some(b) => Value::Long(b as i64),
        None => Value::Null,
    };
    parse_myhome_row(&row(fields), STAMP).unwrap()
}

#[test]
fn filter_is_a_fail_closed_conjunction() {
    let mut c = params();
    c.min_price = Some(Amount::from_units(1000));
    c.bedrooms = Some(2);
    assert!(should_include_property(&with(1200, Some(2)), &c));
    assert!(!should_include_property(&with(1200, None), &c));
    assert!(!should_include_property(&with(900, Some(2)), &c));
    assert!(!should_include_property(&with(1200, Some(3)), &c));
}

#[test]
fn filter_text_criteria_ignore_case() {
    let p = with(1200, Some(2));
    let mut c = params();
    c.property_type = Some("aPaRt".to_string());
    c.ber_rating = Some("b".to_string());
    c.source = Some("MyHome".to_string());
    c.max_price = Some(Amount::from_units(1200));
    assert!(should_include_property(&p, &c));
    c.ber_rating = Some("A".to_string());
    assert!(!should_include_property(&p, &c));
    c.ber_rating = None;
    c.source = Some("daft".to_string());
    assert!(!should_include_property(&p, &c));
    c.source = None;
    c.max_price = Some(Amount::from_units(1199));
    assert!(!should_include_property(&p, &c));
    let mut no_ber = params();
    no_ber.ber_rating = Some("b".to_string());
    let mut fields = myhome_fields();
    fields[49] = Value::Null;
    assert!(!should_include_property(&parse_myhome_row(&row(fields), STAMP).unwrap(), &no_ber));
}

#[test]
fn source_selection() {
    assert_eq!(sources_to_search(&params()), vec![Source::Daft, Source::MyHome, Source::PropertyIe]);
    let mut c = params();
    c.source = Some("DAFT".to_string());
    assert_eq!(sources_to_search(&c), vec![Source::Daft]);
    c.source = Some("zoopla".to_string());
    assert!(sources_to_search(&c).is_empty());
}

#[test]
fn records_outside_the_price_range_are_dropped() {
    let c = params();
    assert!(accept_record(Source::PropertyIe, &property_ie_row("A", "100000", "1"), &c, STAMP).is_none());
    assert!(accept_record(Source::PropertyIe, &property_ie_row("A", "99999.99", "1"), &c, STAMP).is_some());
}

#[test]
fn missing_snapshot_contributes_nothing() {
    let batches = vec![
        SourceBatch { source: Source::Daft, snapshot: None },
        SourceBatch {
            source: Source::PropertyIe,
            snapshot: Some(vec![
                property_ie_row("A", "€1,500 monthly", "1"),
                property_ie_row("B", "POA", "2"),
                property_ie_row("C", "800/month", "3"),
            ]),
        },
    ];
    let out = normalize_batches(&batches, &params(), STAMP);
    let ids: Vec<&str> = out.iter().map(|p| p.property_id.as_str()).collect();
    assert_eq!(ids, vec!["property_1", "property_3"]);
    let at = search(&batches, &params(), 1_431_648_000, 0).expect("instant in range");
    assert_eq!(at.len(), 2);
    assert_eq!(at[0].created_date, "2015-05-15T00:00:00+00:00");
    assert!(search(&batches, &params(), i64::MAX, 0).is_none());
}

use rentals::model::StandardizedProperty;
use rentals::model::Source;
use rentals::sources::PropertyIEListing;
use rentals::snapshot::DATA_ROOT;
use std::path::Path;

const BASE_PATH: &str = "housing_data";

#[test]
fn test_directory_exists() {
    let path = Path::new(BASE_PATH);
    assert!(path.is_relative());
    assert_eq!(path, Path::new(DATA_ROOT));
}

#[test]
fn test_property_ie_parsing() {
    let listing = PropertyIEListing {
        address: "Test Address".to_string(),
        price: "€1,500 monthly".to_string(),
        id: "12345".to_string(),
    };
    let property = StandardizedProperty::from_property_ie(listing, "2024-05-01T10:00:00+00:00")
        .expect("listing with a price parses");
    assert_eq!(property.price.amount.micros as f64 / 1_000_000.0, 1500.0);
    assert_eq!(property.source.name(), "property");
    assert_eq!(property.source, Source::PropertyIe);
}

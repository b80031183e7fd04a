use geohog::geography::map_load::{get_char_entry, parse_country_data, FieldValue, Record};

fn text(name: &str, value: &str) -> (String, FieldValue) {
    (name.to_owned(), FieldValue::Character(Some(value.to_owned())))
}

fn france() -> Record {
    Record {
        fields: vec![
            text("GU_A3", "FRA"),
            text("GEOUNIT", "France"),
            text("ABBREV", "Fr."),
            text("FORMAL_EN", "French Republic"),
            text("TYPE", "Country"),
            text("SOVEREIGNT", "France"),
            text("ECONOMY", "1. Developed region: G7"),
            text("INCOME_GRP", "1. High income: OECD"),
            text("SUBREGION", "Western Europe"),
            text("CONTINENT", "Europe"),
            ("POP_EST".to_owned(), FieldValue::Other),
        ],
    }
}

#[test]
fn country_data_from_record() {
    let (data, label) = parse_country_data(&france(), 67_059_887, 2_715_518);
    assert_eq!(data.tag, "FRA");
    assert_eq!(data.name, "France");
    assert_eq!(data.name_short, "Fr.");
    assert_eq!(data.name_long, "French Republic");
    assert_eq!(data.adm_type, "Country");
    assert_eq!(data.adm_name, "France");
    assert_eq!(data.economy, "1. Developed region: G7");
    assert_eq!(data.income_group, "1. High income: OECD");
    assert_eq!(data.subregion, "Western Europe");
    assert_eq!(data.continent, "Europe");
    assert_eq!(data.population, 67_059_887);
    assert_eq!(data.gdp, 2_715_518);
    assert_eq!(label, "France");
}

#[test]
fn missing_or_non_text_attributes_read_unknown() {
    let record = Record {
        fields: vec![
            ("GU_A3".to_owned(), FieldValue::Character(None)),
            ("GEOUNIT".to_owned(), FieldValue::Other),
        ],
    };
    let (data, label) = parse_country_data(&record, 0, 0);
    assert_eq!(data.tag, "unknown");
    assert_eq!(data.name, "unknown");
    assert_eq!(data.name_long, "unknown");
    assert_eq!(data.continent, "unknown");
    assert_eq!(label, "unknown");
}

#[test]
fn first_field_of_a_name_counts() {
    let record = Record { fields: vec![text("A", "one"), text("A", "two")] };
    assert_eq!(get_char_entry(&record, &"A".to_owned()), "one");
    assert_eq!(get_char_entry(&record, &"B".to_owned()), "unknown");
}

#[test]
fn single_resolution_map_falls_back_to_name() {
    let record = Record { fields: vec![text("GEOUNIT", "Kosovo"), text("GU_A3", "KOS")] };
    let (data, _) = geohog::map_load::parse_country_data(&record, 1, 2);
    assert_eq!(data.name_long, "Kosovo");
    assert_eq!(data.tag, "KOS");
    let (data, _) = geohog::map_load::parse_country_data(&france(), 1, 2);
    assert_eq!(data.name_long, "French Republic");
}

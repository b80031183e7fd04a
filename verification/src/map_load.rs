//! Country data read from shapefile records, for the single-resolution map.
//! Unlike `geography::map_load`, a country without a formal name takes its
//! plain name as its long name.

use vstd::prelude::*;
use crate::geography::map_load::{Record, FieldValue, char_entry, get_char_entry, unknown};

verus! {

/// Demographic, political, and administrative data about a country
#[derive(Debug)]
pub struct CountryData {
    pub tag: String,
    pub name: String,
    pub name_short: String,
    pub name_long: String,
    pub adm_type: String,  // for now
    pub adm_name: String,  // for now. this should be adm_tag eventually
    pub economy: String,
    pub income_group: String,
    pub population: u64,
    pub gdp: i64,
    pub continent: String,
    pub subregion: String,
}

/// The long name of a country: its formal name, or its name when the
/// formal name is unknown.
pub open spec fn long_name(fields: Seq<(String, FieldValue)>) -> Seq<char> {
    if char_entry(fields, "FORMAL_EN"@) == unknown() {
        char_entry(fields, "GEOUNIT"@)
    } else {
        char_entry(fields, "FORMAL_EN"@)
    }
}

/// The country data of a record, with the label to show for the country
/// (its name); `population` and `gdp` are the record's numeric estimates.
pub fn parse_country_data(record: &Record, population: u64, gdp: i64) -> (r: (CountryData, String))
    ensures
        r.0.tag@ == char_entry(record.fields@, "GU_A3"@),
        r.0.name@ == char_entry(record.fields@, "GEOUNIT"@),
        r.0.name_short@ == char_entry(record.fields@, "ABBREV"@),
        r.0.name_long@ == long_name(record.fields@),
        r.0.adm_type@ == char_entry(record.fields@, "TYPE"@),
        r.0.adm_name@ == char_entry(record.fields@, "SOVEREIGNT"@),
        r.0.economy@ == char_entry(record.fields@, "ECONOMY"@),
        r.0.income_group@ == char_entry(record.fields@, "INCOME_GRP"@),
        r.0.subregion@ == char_entry(record.fields@, "SUBREGION"@),
        r.0.continent@ == char_entry(record.fields@, "CONTINENT"@),
        r.0.population == population,
        r.0.gdp == gdp,
        r.1@ == r.0.name@,
{
    let tag = get_char_entry(record, &"GU_A3".to_owned());
    let name = get_char_entry(record, &"GEOUNIT".to_owned());
    let name_short = get_char_entry(record, &"ABBREV".to_owned());
    let mut name_long = get_char_entry(record, &"FORMAL_EN".to_owned());
    if name_long == "unknown".to_owned() {
        name_long = name.clone();
    }
    let adm_type = get_char_entry(record, &"TYPE".to_owned());
    let adm_name = get_char_entry(record, &"SOVEREIGNT".to_owned());
    let economy = get_char_entry(record, &"ECONOMY".to_owned());
    let income_group = get_char_entry(record, &"INCOME_GRP".to_owned());
    let subregion = get_char_entry(record, &"SUBREGION".to_owned());
    let continent = get_char_entry(record, &"CONTINENT".to_owned());
    let label = name.clone();
    (
        CountryData {
            tag,
            name,
            name_short,
            name_long,
            adm_type,
            adm_name,
            economy,
            income_group,
            population,
            gdp,
            subregion,
            continent,
        },
        label,
    )
}

} // verus!

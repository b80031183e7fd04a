//! Country data read from the attribute records of a shapefile.
//!
//! A record's text attributes are looked up by name; a missing attribute,
//! or one that is not text, reads as "unknown".

use vstd::prelude::*;

verus! {

/// The value of one attribute of a record, as far as it is read here.
pub enum FieldValue {
    /// A text attribute, empty when `None`.
    Character(Option<String>),
    /// An attribute of any other type.
    Other,
}

/// The attributes of one shapefile record, by name.
pub struct Record {
    pub fields: Vec<(String, FieldValue)>,
}

/// Demographic, political, and administrative data about a country
#[derive(Debug)]
pub struct CountryData {
    pub tag: String,
    pub name: String,
    pub name_short: String,
    pub name_long: String,
    pub adm_type: String,
    pub adm_name: String,
    pub economy: String,
    pub income_group: String,
    pub population: u64,
    pub gdp: i64,
    pub continent: String,
    pub subregion: String,
}

/// What a text attribute reads as when it is absent.
pub open spec fn unknown() -> Seq<char> {
    "unknown"@
}

/// The text of attribute `attr`: the value of the first field of that
/// name when it is non-empty text, else "unknown".
pub open spec fn char_entry(fields: Seq<(String, FieldValue)>, attr: Seq<char>) -> Seq<char>
    decreases fields.len(),
{
    if fields.len() == 0 {
        unknown()
    } else if fields[0].0@ == attr {
        match fields[0].1 {
            FieldValue::Character(Some(s)) => s@,
            _ => unknown(),
        }
    } else {
        char_entry(fields.drop_first(), attr)
    }
}

/// A text attribute reads as the value of the first field of its name, when
/// that value is non-empty text, and as "unknown" otherwise or when no field
/// has that name.
pub proof fn law_char_entry_is_first_field(fields: Seq<(String, FieldValue)>, attr: Seq<char>, i: int)
    ensures
        (forall|j: int| 0 <= j < fields.len() ==> fields[j].0@ != attr) ==> char_entry(
            fields,
            attr,
        ) == unknown(),
        0 <= i < fields.len() && fields[i].0@ == attr && (forall|j: int|
            0 <= j < i ==> fields[j].0@ != attr) ==> char_entry(fields, attr) == match fields[i].1 {
            FieldValue::Character(Some(v)) => v@,
            _ => unknown(),
        },
    decreases fields.len(),
{
    if fields.len() > 0 {
        law_char_entry_is_first_field(fields.drop_first(), attr, i - 1);
        assert forall|j: int| 0 <= j < fields.drop_first().len() implies fields.drop_first()[j]
            == fields[j + 1] by {}
    }
}

/// The text of attribute `attr` of a record, or "unknown".
pub fn get_char_entry(record: &Record, attr: &String) -> (r: String)
    ensures
        r@ == char_entry(record.fields@, attr@),
{
    let mut i: usize = 0;
    proof {
        assert(record.fields@.skip(0) =~= record.fields@);
    }
    while i < record.fields.len()
        invariant
            i <= record.fields.len(),
            char_entry(record.fields@, attr@) == char_entry(record.fields@.skip(i as int), attr@),
        decreases record.fields.len() - i,
    {
        let (name, value) = &record.fields[i];
        proof {
            assert(record.fields@.skip(i as int)[0] == record.fields@[i as int]);
            assert(record.fields@.skip(i as int).drop_first() =~= record.fields@.skip(i + 1));
        }
        if *name == *attr {
            return match value {
                FieldValue::Character(Some(entry)) => entry.clone(),
                _ => "unknown".to_owned(),
            };
        }
        i += 1;
    }
    proof {
        assert(record.fields@.skip(i as int) =~= Seq::<(String, FieldValue)>::empty());
    }
    "unknown".to_owned()
}

/// The country data of a record, with the label to show for the country
/// (its name); `population` and `gdp` are the record's numeric estimates.
pub fn parse_country_data(record: &Record, population: u64, gdp: i64) -> (r: (CountryData, String))
    ensures
        r.0.tag@ == char_entry(record.fields@, "GU_A3"@),
        r.0.name@ == char_entry(record.fields@, "GEOUNIT"@),
        r.0.name_short@ == char_entry(record.fields@, "ABBREV"@),
        r.0.name_long@ == char_entry(record.fields@, "FORMAL_EN"@),
        r.0.adm_type@ == char_entry(record.fields@, "TYPE"@),
        r.0.adm_name@ == char_entry(record.fields@, "SOVEREIGNT"@),
        r.0.economy@ == char_entry(record.fields@, "ECONOMY"@),
        r.0.income_group@ == char_entry(record.fields@, "INCOME_GRP"@),
        r.0.subregion@ == char_entry(record.fields@, "SUBREGION"@),
        r.0.continent@ == char_entry(record.fields@, "CONTINENT"@),
        r.0.population == population,
        r.0.gdp == gdp,
        r.1@ == r.0.name@,
{
    let tag = get_char_entry(record, &"GU_A3".to_owned());
    let name = get_char_entry(record, &"GEOUNIT".to_owned());
    let name_short = get_char_entry(record, &"ABBREV".to_owned());
    let name_long = get_char_entry(record, &"FORMAL_EN".to_owned());
    let adm_type = get_char_entry(record, &"TYPE".to_owned());
    let adm_name = get_char_entry(record, &"SOVEREIGNT".to_owned());
    let economy = get_char_entry(record, &"ECONOMY".to_owned());
    let income_group = get_char_entry(record, &"INCOME_GRP".to_owned());
    let subregion = get_char_entry(record, &"SUBREGION".to_owned());
    let continent = get_char_entry(record, &"CONTINENT".to_owned());
    let label = name.clone();
    (
        CountryData {
            tag,
            name,
            name_short,
            name_long,
            adm_type,
            adm_name,
            economy,
            income_group,
            population,
            gdp,
            subregion,
            continent,
        },
        label,
    )
}

} // verus!

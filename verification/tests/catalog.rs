use copyup::{fetch_list, CatalogError, EmptyCatalogError, LicenseEntry, LicenseList};

fn entry(id: &str, name: &str) -> LicenseEntry {
    LicenseEntry {
        reference: format!("./{}.html", id),
        is_deprecated_license_id: false,
        details_url: format!("https://spdx.org/licenses/{}.json", id),
        reference_number: String::from("7"),
        name: String::from(name),
        license_id: String::from(id),
        see_also: vec![String::from("https://opensource.org/licenses/")],
        is_osi_approved: false,
    }
}

#[test]
fn loading_no_entries_fails() {
    assert_eq!(LicenseList::load(String::from("3.0"), vec![]), Err(EmptyCatalogError));
}

#[test]
fn loading_keeps_the_entries_and_their_order() {
    let entries = vec![entry("Zlib", "zlib License"), entry("MIT", "MIT License"), entry("ISC", "ISC License")];
    let list = LicenseList::load(String::from("3.27"), entries.clone()).unwrap();
    assert_eq!(list.license_list_version, "3.27");
    assert_eq!(list.licenses, entries);
}

#[test]
fn loading_does_not_remove_duplicates() {
    let entries = vec![entry("MIT", "one"), entry("MIT", "two")];
    let list = LicenseList::load(String::from("3.0"), entries.clone()).unwrap();
    assert_eq!(list.licenses, entries);
}

#[test]
fn fetched_catalog_is_handed_on() {
    let list = LicenseList {
        license_list_version: String::from("3.0"),
        licenses: vec![entry("MIT", "MIT License")],
    };
    let answer: Result<LicenseList, String> = Ok(list.clone());
    assert_eq!(fetch_list(answer), Ok(list));
}

#[test]
fn fetched_catalog_without_entries_is_refused() {
    let list = LicenseList { license_list_version: String::from("3.0"), licenses: vec![] };
    let answer: Result<LicenseList, String> = Ok(list);
    assert_eq!(fetch_list(answer), Err(CatalogError::Empty));
}

#[test]
fn failure_of_the_catalog_source_is_handed_on_unchanged() {
    let answer: Result<LicenseList, String> = Err(String::from("connection refused"));
    assert_eq!(fetch_list(answer), Err(CatalogError::Source(String::from("connection refused"))));
}

#[test]
fn listing_gives_the_width_of_the_longest_identifier() {
    let list = LicenseList {
        license_list_version: String::from("3.0"),
        licenses: vec![entry("MIT", "MIT License"), entry("Apache-2.0", "Apache License 2.0"), entry("ISC", "ISC License")],
    };
    let (entries, width) = list.display_list();
    assert_eq!(width, 10);
    assert_eq!(entries, &list.licenses);
    let ids: Vec<&str> = entries.iter().map(|e| e.license_id.as_str()).collect();
    assert_eq!(ids, vec!["MIT", "Apache-2.0", "ISC"]);
}

#[test]
fn listing_width_is_that_of_the_first_entry_when_it_is_longest() {
    let list = LicenseList {
        license_list_version: String::from("3.0"),
        licenses: vec![entry("GPL-3.0-or-later", "GNU GPL"), entry("MIT", "MIT License")],
    };
    assert_eq!(list.display_list().1, 16);
}

#[test]
fn listing_width_counts_characters_not_bytes() {
    let list = LicenseList {
        license_list_version: String::from("3.0"),
        licenses: vec![entry("ÖÄÜ", "three characters, six bytes"), entry("ab", "two")],
    };
    assert_eq!(list.display_list().1, 3);
}

#[test]
fn listing_of_one_entry_with_an_empty_identifier_has_width_zero() {
    let list = LicenseList {
        license_list_version: String::from("3.0"),
        licenses: vec![entry("", "nameless")],
    };
    assert_eq!(list.display_list().1, 0);
}

#[test]
fn listing_of_an_empty_catalog_has_width_zero() {
    let list = LicenseList { license_list_version: String::from("3.0"), licenses: vec![] };
    let (entries, width) = list.display_list();
    assert!(entries.is_empty());
    assert_eq!(width, 0);
}

#[test]
fn catalog_address_is_the_published_one() {
    assert_eq!(copyup::LICENSE_LIST_URL, "https://spdx.org/licenses/licenses.json");
}

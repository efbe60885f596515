//! Find a software license by an approximate identifier.
//!
//! A [`LicenseList`] holds the known licenses in the order in which they were
//! received. [`LicenseList::find_match`] scores every entry against a query by
//! the case-insensitive Damerau–Levenshtein distance of the identifiers and
//! reports the closest entry, as an exact match where the distance is zero.
//! Nothing here touches the network: the caller obtains the catalog and the
//! license documents and hands the outcome of each request to the library.
//!
//! Everything is proved but what two functions from outside return:
//! `str::to_lowercase` and `strsim::damerau_levenshtein`. What is believed of
//! them is stated in [`score`].

pub mod edit_distance;
pub mod license;
pub mod nearest;
pub mod score;

pub use license::{
    fetch_list, CatalogError, EmptyCatalogError, LicenseDetails, LicenseEntry, LicenseList, Match,
    RetrievalError, LICENSE_LIST_URL,
};

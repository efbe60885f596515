//! The data model: catalog entries, the catalog, a license's detail document,
//! the outcome of a match, and the errors.

pub mod catalog;
pub mod laws;
pub mod matching;
pub mod retrieval;

pub use catalog::fetch_list;

use vstd::prelude::*;

verus! {

/// Where the catalog of licenses is published.
pub const LICENSE_LIST_URL: &'static str = "https://spdx.org/licenses/licenses.json";

/// One license of the catalog.
#[derive(Debug, Clone, PartialEq, Eq)]
pub struct LicenseEntry {
    pub reference: String,
    pub is_deprecated_license_id: bool,
    /// Where the license's detail document, with its full text, is found.
    pub details_url: String,
    pub reference_number: String,
    pub name: String,
    /// The short identifier that queries are matched against, case ignored.
    pub license_id: String,
    pub see_also: Vec<String>,
    pub is_osi_approved: bool,
}

/// The outcome of matching a query against a catalog.
#[derive(Debug, Clone, Copy, PartialEq, Eq)]
pub enum Match<T> {
    /// An entry whose identifier is the query, case ignored.
    Exact(T),
    /// No identifier is the query; this entry is nearest to it.
    Closest(T),
    /// There was nothing to match against.
    NoMatch,
}

/// The detail document of one license.
#[derive(Debug, Clone, PartialEq, Eq)]
pub struct LicenseDetails {
    pub is_deprecated_license_id: bool,
    pub is_fsf_libre: Option<bool>,
    /// The full text of the license.
    pub license_text: String,
    pub standard_license_template: String,
    pub name: String,
    pub license_id: String,
    pub see_also: Vec<String>,
    pub is_osi_approved: bool,
}

/// The catalog: the known licenses, in the order in which they were received.
#[derive(Debug, Clone, PartialEq, Eq)]
pub struct LicenseList {
    pub license_list_version: String,
    pub licenses: Vec<LicenseEntry>,
}

/// A catalog was to be made of no entries at all.
#[derive(Debug, Clone, Copy, PartialEq, Eq)]
pub struct EmptyCatalogError;

/// Why no catalog could be had.
#[derive(Debug, Clone, PartialEq, Eq)]
pub enum CatalogError<E> {
    /// The source answered, with a catalog of no entries.
    Empty,
    /// The source failed; its failure is handed on as it came.
    Source(E),
}

/// The text of a license could not be had: the detail source failed, and its
/// failure is handed on as it came.
#[derive(Debug, Clone, PartialEq, Eq)]
pub struct RetrievalError<E> {
    pub cause: E,
}

} // verus!

//! Making a catalog and listing it.

use crate::license::{CatalogError, EmptyCatalogError, LicenseEntry, LicenseList};
use vstd::prelude::*;

verus! {

impl LicenseList {
    /// Makes a catalog of the entries as they were received, in their order.
    /// A catalog of no entries is refused: there would be nothing to match
    /// against. Nothing else is checked; in particular an identifier that
    /// comes twice is kept twice, see [`LicenseList::has_unique_identifiers`].
    pub fn load(license_list_version: String, licenses: Vec<LicenseEntry>) -> (catalog: Result<
        LicenseList,
        EmptyCatalogError,
    >)
        ensures
            catalog == if licenses@.len() == 0 {
                Err::<LicenseList, EmptyCatalogError>(EmptyCatalogError)
            } else {
                Ok((LicenseList { license_list_version, licenses }))
            },
    {
        if licenses.len() == 0 {
            Err(EmptyCatalogError)
        } else {
            Ok(LicenseList { license_list_version, licenses })
        }
    }

    /// `width` is the width of the identifier column: the length, in
    /// characters, of the longest identifier, and zero for an empty catalog.
    pub open spec fn is_id_width(&self, width: nat) -> bool {
        &&& forall|i: int|
            0 <= i < self.licenses@.len() ==> (#[trigger] self.licenses@[i]).license_id@.len()
                <= width
        &&& if self.licenses@.len() == 0 {
            width == 0
        } else {
            exists|i: int|
                0 <= i < self.licenses@.len() && (#[trigger] self.licenses@[i]).license_id@.len()
                    == width
        }
    }

    /// The listing of the catalog: its entries in their order, and the width
    /// that the identifier column needs. Laying the lines out and printing
    /// them is left to the caller.
    pub fn display_list(&self) -> (listing: (&Vec<LicenseEntry>, usize))
        ensures
            listing.0 == &self.licenses,
            self.is_id_width(listing.1 as nat),
    {
        let mut width: usize = 0;
        let ghost mut widest: int = 0;
        let mut i: usize = 0;
        while i < self.licenses.len()
            invariant
                i <= self.licenses@.len(),
                forall|j: int|
                    0 <= j < i ==> (#[trigger] self.licenses@[j]).license_id@.len() <= width,
                i == 0 ==> width == 0,
                i > 0 ==> 0 <= widest < i && self.licenses@[widest].license_id@.len() == width,
            decreases self.licenses@.len() - i,
        {
            let len: usize = self.licenses[i].license_id.as_str().unicode_len();
            proof {
                if len > width || i == 0 {
                    widest = i as int;
                }
            }
            if len > width {
                width = len;
            }
            i += 1;
        }
        (&self.licenses, width)
    }
}

/// Takes what the catalog source answered and makes the catalog of it. A
/// failure of the source is handed on as it came; a catalog of no entries is
/// refused.
pub fn fetch_list<E>(response: Result<LicenseList, E>) -> (catalog: Result<
    LicenseList,
    CatalogError<E>,
>)
    ensures
        catalog == match response {
            Ok(list) => if list.licenses@.len() == 0 {
                Err::<LicenseList, CatalogError<E>>(CatalogError::Empty)
            } else {
                Ok(list)
            },
            Err(failure) => Err(CatalogError::Source(failure)),
        },
{
    match response {
        Ok(list) => match LicenseList::load(list.license_list_version, list.licenses) {
            Ok(catalog) => Ok(catalog),
            Err(_) => Err(CatalogError::Empty),
        },
        Err(failure) => Err(CatalogError::Source(failure)),
    }
}

} // verus!

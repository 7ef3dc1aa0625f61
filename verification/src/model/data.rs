//! What the engine hands back: exoplanet records and pages of them.

use vstd::prelude::*;
use crate::page::{ascending, sort_by_id};

verus! {

/// One exoplanet record. The engine reads nothing of it but `id`, the
/// identifier that pages are keyed and ordered by.
#[derive(Debug, Clone, PartialEq, Hash, Eq)]
pub struct PlanetData {
    pub pl_name: String,
    pub hostname: String,
    pub pl_letter: String,
    pub sy_snum: String,
    pub sy_pnum: String,
    pub sy_mnum: String,
    pub cb_flag: u8,
    pub default_flag: bool,
    pub discovery_method: Option<String>,
    pub disc_year: String,
    pub disc_refname: String,
    pub disc_pubdate: String,
    pub disc_refhref: String,
    pub caltech_href: String,
    pub disc_telescope: String,
    pub pl_orbper: Option<String>,
    pub pl_orbpererr1: Option<String>,
    pub pl_orbpererr2: Option<String>,
    pub pl_rade: Option<String>,
    pub pl_radeerr1: Option<String>,
    pub pl_radeerr2: Option<String>,
    pub pl_bmasse: Option<String>,
    pub pl_bmasseerr1: Option<String>,
    pub pl_bmasseerr2: Option<String>,
    pub pl_bmassprov: Option<String>,
    pub release_date: String,
    pub st_spectype: Option<String>,
    pub disc_facility: String,
    pub id: i64,
}

/// One page of records, with the identifiers of its first and last row: the
/// anchors from which the previous and the next page are requested.
#[derive(Debug, Clone, PartialEq, Hash, Eq)]
pub struct Data {
    pub planet_data: Vec<PlanetData>,
    pub last_id: i64,
    pub first_id: i64,
}

impl Data {
    /// Whether the page holds exactly the given rows, ascending by
    /// identifier, with the anchors taken from its own first and last row.
    pub open spec fn is_built_from(self, rows: Seq<PlanetData>) -> bool {
        &&& rows.len() > 0
        &&& ascending(self.planet_data@)
        &&& self.planet_data@.to_multiset() == rows.to_multiset()
        &&& self.first_id == self.planet_data@.first().id
        &&& self.last_id == self.planet_data@.last().id
    }

    /// Makes a page of rows in any order: sorts them ascending by identifier
    /// and reads the anchors off the ends. No rows, no page.
    pub fn build(data_vec: Vec<PlanetData>) -> (page: Option<Data>)
        ensures
            page is None <==> data_vec@.len() == 0,
            page matches Some(data) ==> data.is_built_from(data_vec@),
    {
        let planet_data = sort_by_id(data_vec);
        proof {
            planet_data@.to_multiset_ensures();
            data_vec@.to_multiset_ensures();
        }
        if planet_data.len() == 0 {
            return None;
        }
        let first_id = planet_data[0].id;
        let last_id = planet_data[planet_data.len() - 1].id;
        Some(Data { planet_data, last_id, first_id })
    }
}

} // verus!

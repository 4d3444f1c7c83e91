//! The network-ownership and geolocation dataset: its fixed flat schema, the
//! verified projection from the raw nested record onto that schema with
//! per-field defaults, the pair of open database handles, and the explicitly
//! reloadable cache around them.

use vstd::prelude::*;
use vstd::string::StringExecFns;

use crate::ip::IpAddress;
use crate::mmdb::{open_reader, reader_from_bytes, lookup_record, DbReader};
use crate::record::{
    first_elem, first_of, float_bits_of, float_bits_or_zero, o_rv, oget, sget, text_of,
    text_or_empty, u32_of, u32_or_zero, RecordValue,
};

verus! {

/// The fixed, flat field set projected from one ownership/geolocation
/// lookup. Latitude and longitude are carried as the bit patterns of their
/// 64-bit floating forms.
#[derive(Debug)]
pub struct MaxmindIPResult {
    pub asnnum: u32,
    pub asnorg: String,
    pub city: String,
    pub continent: String,
    pub country: String,
    pub country_iso: String,
    pub latitude_bits: u64,
    pub longitude_bits: u64,
    pub postalcode: String,
    pub subdivision: String,
    pub subdivision_iso: String,
    pub timezone: String,
}

pub open spec fn spec_geo_asnnum(asn: Option<RecordValue>) -> u32 {
    u32_of(sget(asn, "autonomous_system_number"@))
}

pub open spec fn spec_geo_asnorg(asn: Option<RecordValue>) -> Seq<char> {
    text_of(sget(asn, "autonomous_system_organization"@))
}

/// The working-language name under a `names` table.
pub open spec fn spec_en_name(v: Option<RecordValue>) -> Seq<char> {
    text_of(sget(sget(v, "names"@), "en"@))
}

pub open spec fn spec_geo_city(city: Option<RecordValue>) -> Seq<char> {
    spec_en_name(sget(city, "city"@))
}

pub open spec fn spec_geo_continent(city: Option<RecordValue>) -> Seq<char> {
    spec_en_name(sget(city, "continent"@))
}

pub open spec fn spec_geo_country(city: Option<RecordValue>) -> Seq<char> {
    spec_en_name(sget(city, "country"@))
}

pub open spec fn spec_geo_country_iso(city: Option<RecordValue>) -> Seq<char> {
    text_of(sget(sget(city, "country"@), "iso_code"@))
}

pub open spec fn spec_geo_latitude_bits(city: Option<RecordValue>) -> u64 {
    float_bits_of(sget(sget(city, "location"@), "latitude"@))
}

pub open spec fn spec_geo_longitude_bits(city: Option<RecordValue>) -> u64 {
    float_bits_of(sget(sget(city, "location"@), "longitude"@))
}

pub open spec fn spec_geo_postalcode(city: Option<RecordValue>) -> Seq<char> {
    text_of(sget(sget(city, "postal"@), "code"@))
}

pub open spec fn spec_geo_subdivision(city: Option<RecordValue>) -> Seq<char> {
    spec_en_name(first_of(sget(city, "subdivisions"@)))
}

pub open spec fn spec_geo_subdivision_iso(city: Option<RecordValue>) -> Seq<char> {
    text_of(sget(first_of(sget(city, "subdivisions"@)), "iso_code"@))
}

pub open spec fn spec_geo_timezone(city: Option<RecordValue>) -> Seq<char> {
    text_of(sget(sget(city, "location"@), "time_zone"@))
}

/// The record `r` is exactly the projection of the raw ownership record
/// `asn` and the raw geolocation record `city`, defaults applied field by
/// field.
pub open spec fn geo_projected(
    r: MaxmindIPResult,
    asn: Option<RecordValue>,
    city: Option<RecordValue>,
) -> bool {
    &&& r.asnnum == spec_geo_asnnum(asn)
    &&& r.asnorg@ == spec_geo_asnorg(asn)
    &&& r.city@ == spec_geo_city(city)
    &&& r.continent@ == spec_geo_continent(city)
    &&& r.country@ == spec_geo_country(city)
    &&& r.country_iso@ == spec_geo_country_iso(city)
    &&& r.latitude_bits == spec_geo_latitude_bits(city)
    &&& r.longitude_bits == spec_geo_longitude_bits(city)
    &&& r.postalcode@ == spec_geo_postalcode(city)
    &&& r.subdivision@ == spec_geo_subdivision(city)
    &&& r.subdivision_iso@ == spec_geo_subdivision_iso(city)
    &&& r.timezone@ == spec_geo_timezone(city)
}

impl Default for MaxmindIPResult {
    /// The all-defaults record: zero numbers, empty texts.
    fn default() -> (r: Self)
        ensures
            geo_projected(r, None, None),
    {
        MaxmindIPResult {
            asnnum: 0,
            asnorg: String::new(),
            city: String::new(),
            continent: String::new(),
            country: String::new(),
            country_iso: String::new(),
            latitude_bits: 0,
            longitude_bits: 0,
            postalcode: String::new(),
            subdivision: String::new(),
            subdivision_iso: String::new(),
            timezone: String::new(),
        }
    }
}

/// When both lookups miss, every projected field carries its default: zero
/// for the numeric fields, the empty string for the text fields.
pub proof fn lemma_geo_miss_defaults()
    ensures
        spec_geo_asnnum(None) == 0,
        spec_geo_asnorg(None) == Seq::<char>::empty(),
        spec_geo_city(None) == Seq::<char>::empty(),
        spec_geo_continent(None) == Seq::<char>::empty(),
        spec_geo_country(None) == Seq::<char>::empty(),
        spec_geo_country_iso(None) == Seq::<char>::empty(),
        spec_geo_latitude_bits(None) == 0,
        spec_geo_longitude_bits(None) == 0,
        spec_geo_postalcode(None) == Seq::<char>::empty(),
        spec_geo_subdivision(None) == Seq::<char>::empty(),
        spec_geo_subdivision_iso(None) == Seq::<char>::empty(),
        spec_geo_timezone(None) == Seq::<char>::empty(),
{
}

/// Projects the raw nested records of one address onto the fixed field set,
/// applying the defaults wherever a record, sub-record, name table, or field
/// is missing. Verified for every possible raw record.
pub fn project_geo(asn: Option<&RecordValue>, city: Option<&RecordValue>) -> (r: MaxmindIPResult)
    ensures
        geo_projected(r, o_rv(asn), o_rv(city)),
{
    let country_rec = oget(city, "country");
    let location_rec = oget(city, "location");
    let subdivision_rec = first_elem(oget(city, "subdivisions"));
    MaxmindIPResult {
        asnnum: u32_or_zero(oget(asn, "autonomous_system_number")),
        asnorg: text_or_empty(oget(asn, "autonomous_system_organization")),
        city: text_or_empty(oget(oget(oget(city, "city"), "names"), "en")),
        continent: text_or_empty(oget(oget(oget(city, "continent"), "names"), "en")),
        country: text_or_empty(oget(oget(country_rec, "names"), "en")),
        country_iso: text_or_empty(oget(country_rec, "iso_code")),
        latitude_bits: float_bits_or_zero(oget(location_rec, "latitude")),
        longitude_bits: float_bits_or_zero(oget(location_rec, "longitude")),
        postalcode: text_or_empty(oget(oget(city, "postal"), "code")),
        subdivision: text_or_empty(oget(oget(subdivision_rec, "names"), "en")),
        subdivision_iso: text_or_empty(oget(subdivision_rec, "iso_code")),
        timezone: text_or_empty(oget(location_rec, "time_zone")),
    }
}

pub open spec fn geo_dir_error_msg() -> Seq<char> {
    "Error could not locate a directory for MaxMind MMDB files\nHint: specify a directory with the environment variable MAXMIND_MMDB_DIR\n"@
}

pub open spec fn joined_path(dir: Seq<char>, name: Seq<char>) -> Seq<char> {
    dir + "/"@ + name
}

pub open spec fn asn_open_error_msg(dir: Seq<char>) -> Seq<char> {
    "Could not open ASN MMDB file from "@ + joined_path(dir, "GeoLite2-ASN.mmdb"@)
}

pub open spec fn city_open_error_msg(dir: Seq<char>) -> Seq<char> {
    "Could not open City MMDB file from "@ + joined_path(dir, "GeoLite2-City.mmdb"@)
}

/// Joins a directory and a file name with a single separator.
pub fn join_path(dir: &String, name: &str) -> (r: String)
    ensures
        r@ == joined_path(dir@, name@),
{
    let mut s = dir.clone();
    s.append("/");
    s.append(name);
    s
}

/// The two open ownership/geolocation database handles.
pub struct MaxMindDB {
    pub asn_reader: DbReader,
    pub city_reader: DbReader,
}

impl MaxMindDB {
    /// Opens both database files under the resolved directory, or reports
    /// which dataset failed and how to configure the search directory. The
    /// open itself depends on the file system, so only the possible error
    /// texts are pinned down.
    pub fn initialize(dir: &Option<String>) -> (r: Result<MaxMindDB, String>)
        ensures
            dir is None ==> (r matches Err(m) && m@ == geo_dir_error_msg()),
            dir matches Some(d) ==> (r matches Err(m) ==> (m@ == asn_open_error_msg(d@) || m@
                == city_open_error_msg(d@))),
            r is Ok ==> dir is Some,
    {
        match dir {
            None => Err(String::from_str(
                "Error could not locate a directory for MaxMind MMDB files\nHint: specify a directory with the environment variable MAXMIND_MMDB_DIR\n",
            )),
            Some(d) => {
                let asn_path = join_path(d, "GeoLite2-ASN.mmdb");
                let city_path = join_path(d, "GeoLite2-City.mmdb");
                let asn_reader = match open_reader(&asn_path) {
                    Some(rd) => rd,
                    None => {
                        let mut m = String::from_str("Could not open ASN MMDB file from ");
                        m.append(asn_path.as_str());
                        return Err(m);
                    },
                };
                let city_reader = match open_reader(&city_path) {
                    Some(rd) => rd,
                    None => {
                        let mut m = String::from_str("Could not open City MMDB file from ");
                        m.append(city_path.as_str());
                        return Err(m);
                    },
                };
                Ok(MaxMindDB { asn_reader, city_reader })
            },
        }
    }

    /// Builds the handle pair from two database images held in memory, for
    /// callers that do not read the file system.
    pub fn from_bytes(asn_data: Vec<u8>, city_data: Vec<u8>) -> (r: Option<MaxMindDB>) {
        let asn_reader = match reader_from_bytes(asn_data) {
            Some(rd) => rd,
            None => {
                return None;
            },
        };
        let city_reader = match reader_from_bytes(city_data) {
            Some(rd) => rd,
            None => {
                return None;
            },
        };
        Some(MaxMindDB { asn_reader, city_reader })
    }

    pub fn asn_reader(&self) -> (r: &DbReader)
        ensures
            r == &self.asn_reader,
    {
        &self.asn_reader
    }

    /// Looks one parsed address up in both datasets and projects the raw
    /// records onto the fixed field set. A lookup miss is expected and
    /// yields the defaults for that dataset's fields, never an error.
    pub fn iplookup(&self, ip: &IpAddress) -> (r: MaxmindIPResult) {
        let asn = lookup_record(&self.asn_reader, ip);
        let city = lookup_record(&self.city_reader, ip);
        project_geo(asn.as_ref(), city.as_ref())
    }
}

/// The lifecycle of a cached initialization outcome: never attempted,
/// attempted and failed with the failure kept, or ready for reuse.
pub enum CacheEntry<T> {
    Uninit,
    Failed(String),
    Ready(T),
}

/// What one completed initialization attempt against `dir` may leave behind:
/// never the uninitialized state, and on failure exactly one of the
/// dataset's error texts.
pub open spec fn geo_init_outcome(e: &CacheEntry<MaxMindDB>, dir: Option<String>) -> bool {
    match e {
        CacheEntry::Uninit => false,
        CacheEntry::Failed(m) => match dir {
            None => m@ == geo_dir_error_msg(),
            Some(d) => m@ == asn_open_error_msg(d@) || m@ == city_open_error_msg(d@),
        },
        CacheEntry::Ready(_) => dir is Some,
    }
}

/// The explicitly reloadable holder of the ownership/geolocation handles and
/// of the outcome of the last initialization attempt. One instance is meant
/// to stand behind one process-wide lock; every operation leaves a whole,
/// consistent outcome.
pub struct MaxMindCache {
    pub entry: CacheEntry<MaxMindDB>,
}

impl MaxMindCache {
    /// A cache that has never attempted initialization.
    pub fn new() -> (r: Self)
        ensures
            r.entry is Uninit,
    {
        MaxMindCache { entry: CacheEntry::Uninit }
    }

    /// Unconditionally discards the current outcome, handles included, and
    /// re-attempts initialization against `dir`.
    pub fn reload(&mut self, dir: &Option<String>)
        ensures
            geo_init_outcome(&final(self).entry, *dir),
    {
        self.entry = match MaxMindDB::initialize(dir) {
            Ok(db) => CacheEntry::Ready(db),
            Err(m) => CacheEntry::Failed(m),
        };
    }

    /// Attempts initialization only if it was never attempted; a cached
    /// failure stays failed until an explicit reload, and a ready outcome is
    /// reused as it stands.
    pub fn get_or_init(&mut self, dir: &Option<String>) -> (r: &CacheEntry<MaxMindDB>)
        ensures
            old(self).entry is Uninit ==> geo_init_outcome(&final(self).entry, *dir),
            !(old(self).entry is Uninit) ==> final(self).entry == old(self).entry,
            r == &final(self).entry,
    {
        let attempt = match &self.entry {
            CacheEntry::Uninit => true,
            _ => false,
        };
        if attempt {
            self.reload(dir);
        }
        &self.entry
    }
}

} // verus!

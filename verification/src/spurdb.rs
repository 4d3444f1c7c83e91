//! The context/reputation dataset: its fixed schema with one variable-length
//! list field, the verified projection with defaults, the open database
//! handle, and the explicitly reloadable cache around it. An absent list is
//! a distinct outcome from an empty list and is preserved as such.

use vstd::prelude::*;
use vstd::string::StringExecFns;

use crate::ip::IpAddress;
use crate::maxmind::{join_path, joined_path, CacheEntry};
use crate::mmdb::{lookup_record, open_reader, reader_from_bytes, DbReader};
use crate::record::{
    float_bits_of, o_rv, o_str, o_texts, oget, opt_float_bits, opt_float_bits_of, opt_text,
    opt_text_of, sget, text_list, text_list_of, text_of, RecordValue,
};

verus! {

/// The raw fields of one context lookup, each kept optional, exactly as the
/// record carries or omits them.
#[derive(Debug)]
pub struct SpurLookupResult {
    pub client_count: Option<u64>,
    pub infrastructure: Option<String>,
    pub location_city: Option<String>,
    pub location_country: Option<String>,
    pub location_state: Option<String>,
    pub services: Option<Vec<String>>,
    pub tag: Option<String>,
}

/// The raw fields `lr` are exactly what the record `raw` carries under the
/// dataset's keys, nothing defaulted yet.
pub open spec fn spur_raw_projected(lr: SpurLookupResult, raw: Option<RecordValue>) -> bool {
    &&& lr.client_count == opt_float_bits_of(sget(raw, "clientCount"@))
    &&& o_str(lr.infrastructure) == opt_text_of(sget(raw, "infrastructure"@))
    &&& o_str(lr.location_city) == opt_text_of(sget(raw, "locationCity"@))
    &&& o_str(lr.location_country) == opt_text_of(sget(raw, "locationCountry"@))
    &&& o_str(lr.location_state) == opt_text_of(sget(raw, "locationState"@))
    &&& o_texts(lr.services) == text_list_of(sget(raw, "services"@))
    &&& o_str(lr.tag) == opt_text_of(sget(raw, "tag"@))
}

/// Reads each declared field out of the raw record, keeping absence visible.
pub fn extract_spur(raw: Option<&RecordValue>) -> (lr: SpurLookupResult)
    ensures
        spur_raw_projected(lr, o_rv(raw)),
{
    SpurLookupResult {
        client_count: opt_float_bits(oget(raw, "clientCount")),
        infrastructure: opt_text(oget(raw, "infrastructure")),
        location_city: opt_text(oget(raw, "locationCity")),
        location_country: opt_text(oget(raw, "locationCountry")),
        location_state: opt_text(oget(raw, "locationState")),
        services: text_list(oget(raw, "services")),
        tag: opt_text(oget(raw, "tag")),
    }
}

/// The fixed flat field set projected from one context lookup. The client
/// count is carried as the bit pattern of its 64-bit floating form. The
/// services list stays optional: absent is not the same as empty.
#[derive(Debug)]
pub struct SpurResult {
    pub client_count_bits: u64,
    pub infrastructure: String,
    pub location_city: String,
    pub location_country: String,
    pub location_state: String,
    pub services: Option<Vec<String>>,
    pub tag: String,
}

/// The record `r` is exactly the projection of the raw context record:
/// numbers default to zero and texts to the empty string, while a missing
/// services field stays absent rather than becoming an empty list.
pub open spec fn spur_projected(r: SpurResult, raw: Option<RecordValue>) -> bool {
    &&& r.client_count_bits == float_bits_of(sget(raw, "clientCount"@))
    &&& r.infrastructure@ == text_of(sget(raw, "infrastructure"@))
    &&& r.location_city@ == text_of(sget(raw, "locationCity"@))
    &&& r.location_country@ == text_of(sget(raw, "locationCountry"@))
    &&& r.location_state@ == text_of(sget(raw, "locationState"@))
    &&& o_texts(r.services) == text_list_of(sget(raw, "services"@))
    &&& r.tag@ == text_of(sget(raw, "tag"@))
}

impl Default for SpurResult {
    /// The all-defaults record: zero count, empty texts, and the services
    /// list absent.
    fn default() -> (r: Self)
        ensures
            spur_projected(r, None),
    {
        SpurResult {
            client_count_bits: 0,
            infrastructure: String::new(),
            location_city: String::new(),
            location_country: String::new(),
            location_state: String::new(),
            services: None,
            tag: String::new(),
        }
    }
}

/// Applies the per-field defaults to the raw fields: zero and empty string
/// for the scalars, while the services list passes through untouched.
pub fn finalize_spur(lr: SpurLookupResult) -> (r: SpurResult)
    ensures
        forall|raw: Option<RecordValue>|
            spur_raw_projected(lr, raw) ==> #[trigger] spur_projected(r, raw),
{
    let client_count_bits = match lr.client_count {
        Some(b) => b,
        None => 0,
    };
    SpurResult {
        client_count_bits,
        infrastructure: match lr.infrastructure {
            Some(s) => s,
            None => String::new(),
        },
        location_city: match lr.location_city {
            Some(s) => s,
            None => String::new(),
        },
        location_country: match lr.location_country {
            Some(s) => s,
            None => String::new(),
        },
        location_state: match lr.location_state {
            Some(s) => s,
            None => String::new(),
        },
        services: lr.services,
        tag: match lr.tag {
            Some(s) => s,
            None => String::new(),
        },
    }
}

/// Projects the raw context record onto the fixed field set. Verified for
/// every possible raw record.
pub fn project_spur(raw: Option<&RecordValue>) -> (r: SpurResult)
    ensures
        spur_projected(r, o_rv(raw)),
{
    finalize_spur(extract_spur(raw))
}

pub open spec fn spur_dir_error_msg() -> Seq<char> {
    "Error could not locate a directory for Spur MMDB files\nHint: specify a directory with the environment variable SPUR_MMDB_DIR\n"@
}

pub open spec fn spur_open_error_msg(dir: Seq<char>) -> Seq<char> {
    "Could not open Spur MMDB file from "@ + joined_path(dir, "spur.mmdb"@)
}

/// The open context database handle.
pub struct SpurDB {
    pub spur_reader: DbReader,
}

impl SpurDB {
    /// Opens the context database file under the resolved directory, or
    /// reports the failure and how to configure the search directory.
    pub fn initialize(dir: &Option<String>) -> (r: Result<SpurDB, String>)
        ensures
            dir is None ==> (r matches Err(m) && m@ == spur_dir_error_msg()),
            dir matches Some(d) ==> (r matches Err(m) ==> m@ == spur_open_error_msg(d@)),
            r is Ok ==> dir is Some,
    {
        match dir {
            None => Err(String::from_str(
                "Error could not locate a directory for Spur MMDB files\nHint: specify a directory with the environment variable SPUR_MMDB_DIR\n",
            )),
            Some(d) => {
                let spur_path = join_path(d, "spur.mmdb");
                match open_reader(&spur_path) {
                    Some(rd) => Ok(SpurDB { spur_reader: rd }),
                    None => {
                        let mut m = String::from_str("Could not open Spur MMDB file from ");
                        m.append(spur_path.as_str());
                        Err(m)
                    },
                }
            },
        }
    }

    /// Builds the handle from a database image held in memory.
    pub fn from_bytes(data: Vec<u8>) -> (r: Option<SpurDB>) {
        match reader_from_bytes(data) {
            Some(rd) => Some(SpurDB { spur_reader: rd }),
            None => None,
        }
    }

    /// Looks one parsed address up in the context dataset and projects the
    /// raw record onto the fixed field set. A miss yields the defaults with
    /// the services list absent, never an error.
    pub fn iplookup(&self, ip: &IpAddress) -> (r: SpurResult) {
        let raw = lookup_record(&self.spur_reader, ip);
        project_spur(raw.as_ref())
    }
}

/// What one completed initialization attempt against `dir` may leave
/// behind.
pub open spec fn spur_init_outcome(e: &CacheEntry<SpurDB>, dir: Option<String>) -> bool {
    match e {
        CacheEntry::Uninit => false,
        CacheEntry::Failed(m) => match dir {
            None => m@ == spur_dir_error_msg(),
            Some(d) => m@ == spur_open_error_msg(d@),
        },
        CacheEntry::Ready(_) => dir is Some,
    }
}

/// The explicitly reloadable holder of the context handle and of the
/// outcome of the last initialization attempt.
pub struct SpurCache {
    pub entry: CacheEntry<SpurDB>,
}

impl SpurCache {
    /// A cache that has never attempted initialization.
    pub fn new() -> (r: Self)
        ensures
            r.entry is Uninit,
    {
        SpurCache { entry: CacheEntry::Uninit }
    }

    /// Unconditionally discards the current outcome, handle included, and
    /// re-attempts initialization against `dir`.
    pub fn reload(&mut self, dir: &Option<String>)
        ensures
            spur_init_outcome(&final(self).entry, *dir),
    {
        self.entry = match SpurDB::initialize(dir) {
            Ok(db) => CacheEntry::Ready(db),
            Err(m) => CacheEntry::Failed(m),
        };
    }

    /// Attempts initialization only if it was never attempted; a cached
    /// failure stays failed until an explicit reload.
    pub fn get_or_init(&mut self, dir: &Option<String>) -> (r: &CacheEntry<SpurDB>)
        ensures
            old(self).entry is Uninit ==> spur_init_outcome(&final(self).entry, *dir),
            !(old(self).entry is Uninit) ==> final(self).entry == old(self).entry,
            r == &final(self).entry,
    {
        let attempt = match &self.entry {
            CacheEntry::Uninit => true,
            _ => false,
        };
        if attempt {
            self.reload(dir);
        }
        &self.entry
    }
}

} // verus!

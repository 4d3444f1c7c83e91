//! Trusted boundary to the binary lookup database reader. Everything here is
//! believed, not proved: the reader type is opaque, opening depends on the
//! file system, and a lookup's outcome depends on the database's contents, so
//! the contracts state nothing and every caller is verified for every
//! possible outcome.

use vstd::prelude::*;

use crate::ip::IpAddress;
use crate::record::RecordValue;

verus! {

/// An open binary lookup database. The reader is held behind this opaque
/// struct: its own type cannot be declared to the verifier, because the
/// verifier does not know the trait bound on the reader's buffer parameter.
#[verifier::external_body]
pub struct DbReader {
    inner: maxminddb::Reader<Vec<u8>>,
}

#[verifier::external_type_specification]
#[verifier::external_body]
pub struct ExJsonValue(serde_json::Value);

#[verifier::external_type_specification]
#[verifier::external_body]
pub struct ExJsonNumber(serde_json::Number);

/// Relies on maxminddb::Reader::open_readfile: reads a database file into
/// memory and checks its framing; any failure reads as `None`.
#[verifier::external_body]
pub fn open_reader(path: &String) -> (r: Option<DbReader>) {
    maxminddb::Reader::open_readfile(path.as_str()).ok().map(|inner| DbReader { inner })
}

/// Relies on maxminddb::Reader::from_source: checks the framing of a
/// database image already held in memory; any failure reads as `None`.
#[verifier::external_body]
pub fn reader_from_bytes(data: Vec<u8>) -> (r: Option<DbReader>) {
    maxminddb::Reader::from_source(data).ok().map(|inner| DbReader { inner })
}

/// Relies on maxminddb::Reader::lookup and LookupResult::decode: one
/// structured lookup of one address, yielding the raw nested record when the
/// database holds one; a miss or a decoding failure reads as `None`.
#[verifier::external_body]
pub fn lookup_value(r: &DbReader, ip: &IpAddress) -> (v: Option<serde_json::Value>) {
    let addr = match ip {
        IpAddress::V4(n) => core::net::IpAddr::V4(core::net::Ipv4Addr::from(*n)),
        IpAddress::V6(n) => core::net::IpAddr::V6(core::net::Ipv6Addr::from(*n)),
    };
    match r.inner.lookup(addr) {
        Ok(res) => res.decode::<serde_json::Value>().ok().flatten(),
        Err(_) => None,
    }
}

/// Relies on serde_json::Number's accessors: a number is carried over as
/// unsigned, signed, or the bit pattern of its 64-bit floating form.
#[verifier::external_body]
pub fn record_of_number(n: &serde_json::Number) -> (r: RecordValue) {
    if let Some(u) = n.as_u64() {
        RecordValue::Uint(u)
    } else if let Some(i) = n.as_i64() {
        RecordValue::Int(i)
    } else if let Some(x) = n.as_f64() {
        RecordValue::FloatBits(x.to_bits())
    } else {
        RecordValue::Null
    }
}

/// Relies on serde_json::Value's variants: rebuilds the nested value as
/// plain data, one variant to one variant, field by field.
#[verifier::external_body]
pub fn record_of_value(v: &serde_json::Value) -> (r: RecordValue) {
    match v {
        serde_json::Value::Null => RecordValue::Null,
        serde_json::Value::Bool(b) => RecordValue::Bool(*b),
        serde_json::Value::Number(n) => record_of_number(n),
        serde_json::Value::String(s) => RecordValue::Text(s.clone()),
        serde_json::Value::Array(a) => RecordValue::List(a.iter().map(record_of_value).collect()),
        serde_json::Value::Object(m) => RecordValue::Dict(
            m.iter().map(|(k, val)| (k.clone(), record_of_value(val))).collect(),
        ),
    }
}

/// One lookup of one address against one open database, as the raw nested
/// record in plain data. The outcome depends on the database's contents, so
/// nothing is stated of it; all projection of the record is verified for
/// every possible value.
pub fn lookup_record(r: &DbReader, ip: &IpAddress) -> (v: Option<RecordValue>) {
    match lookup_value(r, ip) {
        Some(raw) => Some(record_of_value(&raw)),
        None => None,
    }
}

} // verus!

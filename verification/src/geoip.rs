//! The vectorized ownership/geolocation enrichment: one optional text row in,
//! one optional projected record (or one optional label) out, with nulls
//! propagated per row and the cache honored once per call.

use vstd::prelude::*;
use vstd::string::StringExecFns;
use vstd::utf8::encode_utf8;

use crate::ip6::{parse_ip, spec_parse_ip};
use crate::maxmind::{
    geo_init_outcome, CacheEntry, MaxMindCache, MaxMindDB, MaxmindIPResult,
};
use crate::mmdb::lookup_record;
use crate::record::{sget, text_of, u32_of, RecordValue};
use crate::strutil::{dec_chars, u32_to_dec_string};
use crate::utils::{
    builder_kind_for, bw_kind, bw_view, col_kind, col_view, create_builders, BuilderWrapper,
    CellValue, ColKind, Column, FieldType, MMDBKwargs,
};

verus! {

/// What enrichment owes each row: null in, null out; text that fails address
/// parsing, null out across every field; a parsed address, a populated
/// record, defaults included, never null.
pub open spec fn geo_row_ok(input: Option<String>, out: Option<MaxmindIPResult>) -> bool {
    match input {
        None => out is None,
        Some(s) => match spec_parse_ip(encode_utf8(s@)) {
            None => out is None,
            Some(_) => out is Some,
        },
    }
}

/// Text that fails address parsing is indistinguishable, at the output,
/// from a missing input: for such a row, enrichment of either kind and
/// membership matching owe exactly what they owe a null row.
pub proof fn lemma_unparsed_row_is_null_row(
    s: String,
    geo_out: Option<MaxmindIPResult>,
    spur_out: Option<crate::spurdb::SpurResult>,
    rs: Seq<crate::iptools::CidrRange>,
)
    requires
        spec_parse_ip(encode_utf8(s@)) is None,
    ensures
        geo_row_ok(Some(s), geo_out) == geo_row_ok(None, geo_out),
        crate::spur::spur_row_ok(Some(s), spur_out) == crate::spur::spur_row_ok(None, spur_out),
        crate::iptools::spec_is_in_row(rs, Some(s)) == crate::iptools::spec_is_in_row(rs, None),
{
}

pub open spec fn geo_init_error_msg(m: Seq<char>) -> Seq<char> {
    "Failed to initialize MaxMindDB: "@ + m
}

/// Enriches a column of optional address text against open handles, row by
/// row in input order: null in, null out; unparsed text, null out; a parsed
/// address, one populated record. Each row's work is independent.
#[verifier::loop_isolation(false)]
pub fn geoip_rows(db: &MaxMindDB, rows: &Vec<Option<String>>) -> (out: Vec<
    Option<MaxmindIPResult>,
>)
    ensures
        out@.len() == rows@.len(),
        forall|i: int| 0 <= i < rows@.len() ==> geo_row_ok(rows@[i], #[trigger] out@[i]),
{
    let mut out: Vec<Option<MaxmindIPResult>> = Vec::with_capacity(rows.len());
    let mut i: usize = 0;
    while i < rows.len()
        invariant
            0 <= i <= rows@.len(),
            out@.len() == i,
            forall|j: int| 0 <= j < i ==> geo_row_ok(rows@[j], #[trigger] out@[j]),
        decreases rows@.len() - i,
    {
        match &rows[i] {
            Some(s) => match parse_ip(s.as_str()) {
                Some(ip) => out.push(Some(db.iplookup(&ip))),
                None => out.push(None),
            },
            None => out.push(None),
        }
        i = i + 1;
    }
    out
}

/// Enriches a column of optional address text against the ownership and
/// geolocation datasets, as one composite record per row. Honors the
/// force-reload flag once, before any row; a failed cache fails the whole
/// call with the cached failure, and no partial output.
#[verifier::loop_isolation(false)]
pub fn pl_full_geoip(
    cache: &mut MaxMindCache,
    dir: &Option<String>,
    kwargs: &MMDBKwargs,
    rows: &Vec<Option<String>>,
) -> (r: Result<Vec<Option<MaxmindIPResult>>, String>)
    ensures
        kwargs.reload_mmdb || old(cache).entry is Uninit ==> geo_init_outcome(
            &final(cache).entry,
            *dir,
        ),
        !kwargs.reload_mmdb && !(old(cache).entry is Uninit) ==> final(cache).entry == old(
            cache,
        ).entry,
        r is Ok <==> final(cache).entry is Ready,
        r matches Ok(out) ==> out@.len() == rows@.len() && (forall|i: int|
            0 <= i < rows@.len() ==> geo_row_ok(rows@[i], #[trigger] out@[i])),
        r matches Err(m) ==> (final(cache).entry matches CacheEntry::Failed(fm) && m@
            == geo_init_error_msg(fm@)),
{
    if kwargs.reload_mmdb {
        cache.reload(dir);
    }
    let entry = cache.get_or_init(dir);
    match entry {
        CacheEntry::Ready(db) => Ok(geoip_rows(db, rows)),
        CacheEntry::Failed(m) => {
            let mut e = String::from_str("Failed to initialize MaxMindDB: ");
            e.append(m.as_str());
            Err(e)
        },
        CacheEntry::Uninit => {
            proof {
                assert(false);
            }
            Err(String::new())
        },
    }
}

/// The label of one ownership lookup: nothing on a miss; otherwise `AS`, the
/// number, and the organization after a space when the organization is not
/// empty.
pub open spec fn spec_asn_label(asn: Option<RecordValue>) -> Seq<char> {
    match asn {
        None => Seq::<char>::empty(),
        Some(rv) => {
            let num = u32_of(sget(Some(rv), "autonomous_system_number"@));
            let org = text_of(sget(Some(rv), "autonomous_system_organization"@));
            if org.len() == 0 {
                "AS"@ + dec_chars(num as nat)
            } else {
                "AS"@ + dec_chars(num as nat) + " "@ + org
            }
        },
    }
}

/// Renders the label of one ownership lookup.
pub fn asn_label(asn: Option<&RecordValue>) -> (r: String)
    ensures
        r@ == spec_asn_label(crate::record::o_rv(asn)),
{
    match asn {
        Some(rv) => {
            let num = crate::record::u32_or_zero(crate::record::oget(
                Some(rv),
                "autonomous_system_number",
            ));
            let org = crate::record::text_or_empty(crate::record::oget(
                Some(rv),
                "autonomous_system_organization",
            ));
            let mut s = String::from_str("AS");
            let digits = u32_to_dec_string(num);
            s.append(digits.as_str());
            if !org.as_str().is_empty() {
                s.append(" ");
                s.append(org.as_str());
            }
            s
        },
        None => String::new(),
    }
}

/// What the label column owes each row: null in, null out; unparsed text, an
/// empty label; a parsed address, a label.
pub open spec fn asn_row_ok(input: Option<String>, out: Option<String>) -> bool {
    match input {
        None => out is None,
        Some(s) => match spec_parse_ip(encode_utf8(s@)) {
            None => out matches Some(t) && t@ == Seq::<char>::empty(),
            Some(_) => out is Some,
        },
    }
}

/// Labels a column of optional address text with ownership information. An
/// address that parses but has no ownership entry labels as the empty
/// string, like one that does not parse: only the null rows stay null.
#[verifier::loop_isolation(false)]
pub fn pl_get_asn(
    cache: &mut MaxMindCache,
    dir: &Option<String>,
    kwargs: &MMDBKwargs,
    rows: &Vec<Option<String>>,
) -> (r: Result<Vec<Option<String>>, String>)
    ensures
        kwargs.reload_mmdb || old(cache).entry is Uninit ==> geo_init_outcome(
            &final(cache).entry,
            *dir,
        ),
        !kwargs.reload_mmdb && !(old(cache).entry is Uninit) ==> final(cache).entry == old(
            cache,
        ).entry,
        r is Ok <==> final(cache).entry is Ready,
        r matches Ok(out) ==> out@.len() == rows@.len() && (forall|i: int|
            0 <= i < rows@.len() ==> asn_row_ok(rows@[i], #[trigger] out@[i])),
        r matches Err(m) ==> (final(cache).entry matches CacheEntry::Failed(fm) && m@
            == geo_init_error_msg(fm@)),
{
    if kwargs.reload_mmdb {
        cache.reload(dir);
    }
    let entry = cache.get_or_init(dir);
    match entry {
        CacheEntry::Ready(db) => {
            let mut out: Vec<Option<String>> = Vec::with_capacity(rows.len());
            let mut i: usize = 0;
            while i < rows.len()
                invariant
                    0 <= i <= rows@.len(),
                    out@.len() == i,
                    forall|j: int| 0 <= j < i ==> asn_row_ok(rows@[j], #[trigger] out@[j]),
                decreases rows@.len() - i,
            {
                match &rows[i] {
                    Some(s) => match parse_ip(s.as_str()) {
                        Some(ip) => {
                            let raw = lookup_record(db.asn_reader(), &ip);
                            out.push(Some(asn_label(raw.as_ref())));
                        },
                        None => out.push(Some(String::new())),
                    },
                    None => out.push(None),
                }
                i = i + 1;
            }
            Ok(out)
        },
        CacheEntry::Failed(m) => {
            let mut e = String::from_str("Failed to initialize MaxMindDB: ");
            e.append(m.as_str());
            Err(e)
        },
        CacheEntry::Uninit => {
            proof {
                assert(false);
            }
            Err(String::new())
        },
    }
}


/// The declared ownership/geolocation output schema: field names and types,
/// in the fixed order that the row-filling loop follows.
pub open spec fn maxmind_schema() -> Seq<(Seq<char>, FieldType)> {
    seq![
        ("asnnum"@, FieldType::UInt32),
        ("asnorg"@, FieldType::Text),
        ("city"@, FieldType::Text),
        ("continent"@, FieldType::Text),
        ("country"@, FieldType::Text),
        ("country_iso"@, FieldType::Text),
        ("latitude"@, FieldType::Float64),
        ("longitude"@, FieldType::Float64),
        ("postalcode"@, FieldType::Text),
        ("subdivision"@, FieldType::Text),
        ("subdivision_iso"@, FieldType::Text),
        ("timezone"@, FieldType::Text),
    ]
}

/// The declared output shape, as the schema table in its fixed order.
pub fn geoip_full_output() -> (r: Vec<(String, FieldType)>)
    ensures
        r@.len() == maxmind_schema().len(),
        forall|i: int|
            0 <= i < maxmind_schema().len() ==> (#[trigger] r@[i]).0@ == maxmind_schema()[i].0
                && r@[i].1 == maxmind_schema()[i].1,
{
    let mut v: Vec<(String, FieldType)> = Vec::new();
    v.push((String::from_str("asnnum"), FieldType::UInt32));
    v.push((String::from_str("asnorg"), FieldType::Text));
    v.push((String::from_str("city"), FieldType::Text));
    v.push((String::from_str("continent"), FieldType::Text));
    v.push((String::from_str("country"), FieldType::Text));
    v.push((String::from_str("country_iso"), FieldType::Text));
    v.push((String::from_str("latitude"), FieldType::Float64));
    v.push((String::from_str("longitude"), FieldType::Float64));
    v.push((String::from_str("postalcode"), FieldType::Text));
    v.push((String::from_str("subdivision"), FieldType::Text));
    v.push((String::from_str("subdivision_iso"), FieldType::Text));
    v.push((String::from_str("timezone"), FieldType::Text));
    v
}

/// The cell of one projected record under schema position `c`.
pub open spec fn geo_cell(rec: MaxmindIPResult, c: int) -> CellValue {
    if c == 0 {
        CellValue::UInt32(rec.asnnum)
    } else if c == 1 {
        CellValue::Text(rec.asnorg)
    } else if c == 2 {
        CellValue::Text(rec.city)
    } else if c == 3 {
        CellValue::Text(rec.continent)
    } else if c == 4 {
        CellValue::Text(rec.country)
    } else if c == 5 {
        CellValue::Text(rec.country_iso)
    } else if c == 6 {
        CellValue::Float64Bits(rec.latitude_bits)
    } else if c == 7 {
        CellValue::Float64Bits(rec.longitude_bits)
    } else if c == 8 {
        CellValue::Text(rec.postalcode)
    } else if c == 9 {
        CellValue::Text(rec.subdivision)
    } else if c == 10 {
        CellValue::Text(rec.subdivision_iso)
    } else {
        CellValue::Text(rec.timezone)
    }
}

/// The column cells owed at schema position `c` for the first `upto` rows:
/// null where the row is null, the record's cell otherwise.
pub open spec fn geo_expected(
    recs: Seq<Option<MaxmindIPResult>>,
    c: int,
    upto: int,
) -> Seq<Option<CellValue>> {
    Seq::new(
        upto as nat,
        |row: int|
            match recs[row] {
                None => None,
                Some(rec) => Some(geo_cell(rec, c)),
            },
    )
}

/// Builds the per-field output columns from the composite records,
/// positionally against the declared schema: column `c` carries exactly the
/// schema's type and, row by row, the record's cell at position `c`, or
/// null where the row is null.
#[verifier::loop_isolation(false)]
#[verifier::rlimit(60)]
pub fn pl_geoip_columns(recs: &Vec<Option<MaxmindIPResult>>) -> (cols: Vec<Column>)
    ensures
        cols@.len() == maxmind_schema().len(),
        forall|c: int|
            0 <= c < maxmind_schema().len() ==> col_kind(#[trigger] cols@[c])
                == builder_kind_for(maxmind_schema()[c].1),
        forall|c: int, i: int|
            0 <= c < maxmind_schema().len() && 0 <= i < recs@.len() ==> (#[trigger] col_view(
                cols@[c],
            )[i]) == geo_expected(recs@, c, recs@.len() as int)[i],
        forall|c: int|
            0 <= c < maxmind_schema().len() ==> col_view(#[trigger] cols@[c]).len()
                == recs@.len(),
{
    let fields = geoip_full_output();
    let mut builders = create_builders(&fields, recs.len());
    proof {
        assert forall|c: int| 0 <= c < 12 implies bw_kind(#[trigger] builders@[c]) == geo_kind(
            c,
        ) by {
            if c == 0 {
            } else if c == 1 {
            } else if c == 2 {
            } else if c == 3 {
            } else if c == 4 {
            } else if c == 5 {
            } else if c == 6 {
            } else if c == 7 {
            } else if c == 8 {
            } else if c == 9 {
            } else if c == 10 {
            } else {
            }
        }
    }
    let mut i: usize = 0;
    while i < recs.len()
        invariant
            0 <= i <= recs@.len(),
            builders@.len() == 12,
            forall|c: int| 0 <= c < 12 ==> bw_kind(#[trigger] builders@[c]) == geo_kind(c),
            forall|c: int|
                0 <= c < 12 ==> bw_view(#[trigger] builders@[c]) =~= geo_expected(
                    recs@,
                    c,
                    i as int,
                ),
        decreases recs@.len() - i,
    {
        match &recs[i] {
            Some(rec) => {
                builders[0].append_value(CellValue::UInt32(rec.asnnum));
                builders[1].append_value(CellValue::Text(rec.asnorg.clone()));
                builders[2].append_value(CellValue::Text(rec.city.clone()));
                builders[3].append_value(CellValue::Text(rec.continent.clone()));
                builders[4].append_value(CellValue::Text(rec.country.clone()));
                builders[5].append_value(CellValue::Text(rec.country_iso.clone()));
                builders[6].append_value(CellValue::Float64Bits(rec.latitude_bits));
                builders[7].append_value(CellValue::Float64Bits(rec.longitude_bits));
                builders[8].append_value(CellValue::Text(rec.postalcode.clone()));
                builders[9].append_value(CellValue::Text(rec.subdivision.clone()));
                builders[10].append_value(CellValue::Text(rec.subdivision_iso.clone()));
                builders[11].append_value(CellValue::Text(rec.timezone.clone()));
                proof {
                    assert forall|c: int| 0 <= c < 12 implies bw_view(
                        #[trigger] builders@[c],
                    ) =~= geo_expected(recs@, c, i + 1 as int) by {
                        assert(geo_expected(recs@, c, i + 1 as int) =~= geo_expected(
                            recs@,
                            c,
                            i as int,
                        ).push(Some(geo_cell(recs@[i as int].unwrap(), c))));
                        if c == 0 {
                        } else if c == 1 {
                        } else if c == 2 {
                        } else if c == 3 {
                        } else if c == 4 {
                        } else if c == 5 {
                        } else if c == 6 {
                        } else if c == 7 {
                        } else if c == 8 {
                        } else if c == 9 {
                        } else if c == 10 {
                        } else {
                        }
                    }
                }
            },
            None => {
                let mut c: usize = 0;
                while c < 12
                    invariant
                        0 <= c <= 12,
                        builders@.len() == 12,
                        i < recs@.len(),
                        recs@[i as int] is None,
                        forall|k: int|
                            0 <= k < 12 ==> bw_kind(#[trigger] builders@[k]) == geo_kind(k),
                        forall|k: int|
                            0 <= k < c ==> bw_view(#[trigger] builders@[k]) =~= geo_expected(
                                recs@,
                                k,
                                i + 1 as int,
                            ),
                        forall|k: int|
                            c <= k < 12 ==> bw_view(#[trigger] builders@[k]) =~= geo_expected(
                                recs@,
                                k,
                                i as int,
                            ),
                    decreases 12 - c,
                {
                    builders[c].append_null();
                    proof {
                        assert(geo_expected(recs@, c as int, i + 1 as int) =~= geo_expected(
                            recs@,
                            c as int,
                            i as int,
                        ).push(None));
                    }
                    c = c + 1;
                }
            },
        }
        i = i + 1;
    }
    let mut cols: Vec<Column> = Vec::new();
    while builders.len() > 0
        invariant
            builders@.len() + cols@.len() == 12,
            i == recs@.len(),
            forall|k: int|
                0 <= k < builders@.len() ==> bw_kind(#[trigger] builders@[k]) == geo_kind(
                    k + cols@.len(),
                ) && bw_view(builders@[k]) =~= geo_expected(
                    recs@,
                    k + cols@.len(),
                    recs@.len() as int,
                ),
            forall|k: int|
                0 <= k < cols@.len() ==> col_kind(#[trigger] cols@[k]) == geo_kind(k)
                    && col_view(cols@[k]) =~= geo_expected(recs@, k, recs@.len() as int),
        decreases builders@.len(),
    {
        let b = builders.remove(0);
        cols.push(b.finish());
    }
    proof {
        assert forall|c2: int| 0 <= c2 < 12 implies col_kind(#[trigger] cols@[c2])
            == builder_kind_for(maxmind_schema()[c2].1) by {
            lemma_geo_schema_kinds(c2);
        }
    }
    cols
}

/// The accumulator kind at schema position `c`.
pub open spec fn geo_kind(c: int) -> ColKind {
    if c == 0 {
        ColKind::UInt32
    } else if c == 6 || c == 7 {
        ColKind::Float64
    } else {
        ColKind::Text
    }
}

/// The schema's declared type at each position asks for exactly the kind
/// the row-filling loop appends there.
pub proof fn lemma_geo_schema_kinds(c: int)
    requires
        0 <= c < maxmind_schema().len(),
    ensures
        builder_kind_for(maxmind_schema()[c].1) == geo_kind(c),
{
    if c == 0 {
    } else if c == 1 {
    } else if c == 2 {
    } else if c == 3 {
    } else if c == 4 {
    } else if c == 5 {
    } else if c == 6 {
    } else if c == 7 {
    } else if c == 8 {
    } else if c == 9 {
    } else if c == 10 {
    } else {
    }
}

} // verus!

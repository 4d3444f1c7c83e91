//! The vectorized context/reputation enrichment: one optional text row in,
//! one optional projected record out, nulls propagated per row, the services
//! list kept distinct between absent and empty.

use vstd::prelude::*;
use vstd::string::StringExecFns;
use vstd::utf8::encode_utf8;

use crate::ip6::{parse_ip, spec_parse_ip};
use crate::maxmind::CacheEntry;
use crate::record::o_texts;
use crate::spurdb::{spur_init_outcome, SpurCache, SpurDB, SpurResult};
use crate::utils::{
    builder_kind_for, bw_kind, bw_view, col_kind, col_view, create_builders, BuilderWrapper,
    CellValue, ColKind, Column, FieldType, MMDBKwargs,
};

verus! {

/// What context enrichment owes each row: null in, null out; text that fails
/// address parsing, null out across every field; a parsed address, a
/// populated record, defaults included, never null.
pub open spec fn spur_row_ok(input: Option<String>, out: Option<SpurResult>) -> bool {
    match input {
        None => out is None,
        Some(s) => match spec_parse_ip(encode_utf8(s@)) {
            None => out is None,
            Some(_) => out is Some,
        },
    }
}

pub open spec fn spur_init_error_msg(m: Seq<char>) -> Seq<char> {
    "Failed to initialize SpurDB: "@ + m
}

/// Enriches a column of optional address text against an open handle, row
/// by row in input order: null in, null out; unparsed text, null out; a
/// parsed address, one populated record.
#[verifier::loop_isolation(false)]
pub fn spur_rows(db: &SpurDB, rows: &Vec<Option<String>>) -> (out: Vec<Option<SpurResult>>)
    ensures
        out@.len() == rows@.len(),
        forall|i: int| 0 <= i < rows@.len() ==> spur_row_ok(rows@[i], #[trigger] out@[i]),
{
    let mut out: Vec<Option<SpurResult>> = Vec::with_capacity(rows.len());
    let mut i: usize = 0;
    while i < rows.len()
        invariant
            0 <= i <= rows@.len(),
            out@.len() == i,
            forall|j: int| 0 <= j < i ==> spur_row_ok(rows@[j], #[trigger] out@[j]),
        decreases rows@.len() - i,
    {
        match &rows[i] {
            Some(s) => match parse_ip(s.as_str()) {
                Some(ip) => out.push(Some(db.iplookup(&ip))),
                None => out.push(None),
            },
            None => out.push(None),
        }
        i = i + 1;
    }
    out
}

/// Enriches a column of optional address text against the context dataset,
/// as one composite record per row. Honors the force-reload flag once,
/// before any row; a failed cache fails the whole call with the cached
/// failure, and no partial output.
#[verifier::loop_isolation(false)]
pub fn pl_full_spur(
    cache: &mut SpurCache,
    dir: &Option<String>,
    kwargs: &MMDBKwargs,
    rows: &Vec<Option<String>>,
) -> (r: Result<Vec<Option<SpurResult>>, String>)
    ensures
        kwargs.reload_mmdb || old(cache).entry is Uninit ==> spur_init_outcome(
            &final(cache).entry,
            *dir,
        ),
        !kwargs.reload_mmdb && !(old(cache).entry is Uninit) ==> final(cache).entry == old(
            cache,
        ).entry,
        r is Ok <==> final(cache).entry is Ready,
        r matches Ok(out) ==> out@.len() == rows@.len() && (forall|i: int|
            0 <= i < rows@.len() ==> spur_row_ok(rows@[i], #[trigger] out@[i])),
        r matches Err(m) ==> (final(cache).entry matches CacheEntry::Failed(fm) && m@
            == spur_init_error_msg(fm@)),
{
    if kwargs.reload_mmdb {
        cache.reload(dir);
    }
    let entry = cache.get_or_init(dir);
    match entry {
        CacheEntry::Ready(db) => Ok(spur_rows(db, rows)),
        CacheEntry::Failed(m) => {
            let mut e = String::from_str("Failed to initialize SpurDB: ");
            e.append(m.as_str());
            Err(e)
        },
        CacheEntry::Uninit => {
            proof {
                assert(false);
            }
            Err(String::new())
        },
    }
}


/// The declared context output schema: the scalar fields in their fixed
/// order. The services list goes through its own path, not a scalar column.
/// The client count is declared as the 64-bit floating kind, the width its
/// bit pattern is carried at.
pub open spec fn spur_schema() -> Seq<(Seq<char>, FieldType)> {
    seq![
        ("client_count"@, FieldType::Float64),
        ("infrastructure"@, FieldType::Text),
        ("location_city"@, FieldType::Text),
        ("location_country"@, FieldType::Text),
        ("location_state"@, FieldType::Text),
        ("tag"@, FieldType::Text),
    ]
}

/// The declared output shape, as the schema table in its fixed order.
pub fn spur_full_output() -> (r: Vec<(String, FieldType)>)
    ensures
        r@.len() == spur_schema().len(),
        forall|i: int|
            0 <= i < spur_schema().len() ==> (#[trigger] r@[i]).0@ == spur_schema()[i].0
                && r@[i].1 == spur_schema()[i].1,
{
    let mut v: Vec<(String, FieldType)> = Vec::new();
    v.push((String::from_str("client_count"), FieldType::Float64));
    v.push((String::from_str("infrastructure"), FieldType::Text));
    v.push((String::from_str("location_city"), FieldType::Text));
    v.push((String::from_str("location_country"), FieldType::Text));
    v.push((String::from_str("location_state"), FieldType::Text));
    v.push((String::from_str("tag"), FieldType::Text));
    v
}

/// The cell of one projected record under schema position `c`.
pub open spec fn spur_cell(rec: SpurResult, c: int) -> CellValue {
    if c == 0 {
        CellValue::Float64Bits(rec.client_count_bits)
    } else if c == 1 {
        CellValue::Text(rec.infrastructure)
    } else if c == 2 {
        CellValue::Text(rec.location_city)
    } else if c == 3 {
        CellValue::Text(rec.location_country)
    } else if c == 4 {
        CellValue::Text(rec.location_state)
    } else {
        CellValue::Text(rec.tag)
    }
}

/// The accumulator kind at schema position `c`.
pub open spec fn spur_kind(c: int) -> ColKind {
    if c == 0 {
        ColKind::Float64
    } else {
        ColKind::Text
    }
}

/// The schema's declared type at each position asks for exactly the kind
/// the row-filling loop appends there.
pub proof fn lemma_spur_schema_kinds(c: int)
    requires
        0 <= c < spur_schema().len(),
    ensures
        builder_kind_for(spur_schema()[c].1) == spur_kind(c),
{
    if c == 0 {
    } else if c == 1 {
    } else if c == 2 {
    } else if c == 3 {
    } else if c == 4 {
    } else {
    }
}

/// The column cells owed at schema position `c` for the first `upto` rows.
pub open spec fn spur_expected(
    recs: Seq<Option<SpurResult>>,
    c: int,
    upto: int,
) -> Seq<Option<CellValue>> {
    Seq::new(
        upto as nat,
        |row: int|
            match recs[row] {
                None => None,
                Some(rec) => Some(spur_cell(rec, c)),
            },
    )
}

/// The services cell owed for each row, read as text lists: null where the
/// row is null or the record's list is absent, the list's texts otherwise.
pub open spec fn spur_services_expected(
    recs: Seq<Option<SpurResult>>,
    upto: int,
) -> Seq<Option<Seq<Seq<char>>>> {
    Seq::new(
        upto as nat,
        |row: int|
            match recs[row] {
                None => None,
                Some(rec) => o_texts(rec.services),
            },
    )
}

/// A built services column, read as text lists.
pub open spec fn services_view(v: Seq<Option<Vec<String>>>) -> Seq<Option<Seq<Seq<char>>>> {
    v.map_values(|o: Option<Vec<String>>| o_texts(o))
}

/// Clones a list of strings element by element.
#[verifier::loop_isolation(false)]
fn clone_texts(v: &Vec<String>) -> (r: Vec<String>)
    ensures
        r@ == v@,
{
    let mut out: Vec<String> = Vec::with_capacity(v.len());
    let mut i: usize = 0;
    while i < v.len()
        invariant
            0 <= i <= v@.len(),
            out@ =~= v@.subrange(0, i as int),
        decreases v@.len() - i,
    {
        out.push(v[i].clone());
        proof {
            assert(out@ =~= v@.subrange(0, i + 1 as int));
        }
        i = i + 1;
    }
    proof {
        assert(v@.subrange(0, v@.len() as int) =~= v@);
    }
    out
}

/// Builds the per-field output columns and the separate services column
/// from the composite records, positionally against the declared schema.
#[verifier::loop_isolation(false)]
#[verifier::rlimit(60)]
pub fn pl_spur_columns(recs: &Vec<Option<SpurResult>>) -> (out: (
    Vec<Column>,
    Vec<Option<Vec<String>>>,
))
    ensures
        out.0@.len() == spur_schema().len(),
        forall|c: int|
            0 <= c < spur_schema().len() ==> col_kind(#[trigger] out.0@[c]) == builder_kind_for(
                spur_schema()[c].1,
            ),
        forall|c: int|
            0 <= c < spur_schema().len() ==> col_view(#[trigger] out.0@[c]) =~= spur_expected(
                recs@,
                c,
                recs@.len() as int,
            ),
        services_view(out.1@) =~= spur_services_expected(recs@, recs@.len() as int),
{
    let fields = spur_full_output();
    let mut builders = create_builders(&fields, recs.len());
    proof {
        assert forall|c: int| 0 <= c < 6 implies bw_kind(#[trigger] builders@[c]) == spur_kind(
            c,
        ) by {
            if c == 0 {
            } else if c == 1 {
            } else if c == 2 {
            } else if c == 3 {
            } else if c == 4 {
            } else {
            }
        }
    }
    let mut services: Vec<Option<Vec<String>>> = Vec::with_capacity(recs.len());
    let mut i: usize = 0;
    while i < recs.len()
        invariant
            0 <= i <= recs@.len(),
            builders@.len() == 6,
            services@.len() == i,
            services_view(services@) =~= spur_services_expected(recs@, i as int),
            forall|c: int| 0 <= c < 6 ==> bw_kind(#[trigger] builders@[c]) == spur_kind(c),
            forall|c: int|
                0 <= c < 6 ==> bw_view(#[trigger] builders@[c]) =~= spur_expected(
                    recs@,
                    c,
                    i as int,
                ),
        decreases recs@.len() - i,
    {
        match &recs[i] {
            Some(rec) => {
                builders[0].append_value(CellValue::Float64Bits(rec.client_count_bits));
                builders[1].append_value(CellValue::Text(rec.infrastructure.clone()));
                builders[2].append_value(CellValue::Text(rec.location_city.clone()));
                builders[3].append_value(CellValue::Text(rec.location_country.clone()));
                builders[4].append_value(CellValue::Text(rec.location_state.clone()));
                builders[5].append_value(CellValue::Text(rec.tag.clone()));
                let ghost prev = services@;
                match &rec.services {
                    Some(list) => {
                        let cl = clone_texts(list);
                        proof {
                            assert(cl.deep_view() =~= list.deep_view());
                        }
                        services.push(Some(cl));
                    },
                    None => services.push(None),
                }
                proof {
                    assert forall|c: int| 0 <= c < 6 implies bw_view(
                        #[trigger] builders@[c],
                    ) =~= spur_expected(recs@, c, i + 1 as int) by {
                        assert(spur_expected(recs@, c, i + 1 as int) =~= spur_expected(
                            recs@,
                            c,
                            i as int,
                        ).push(Some(spur_cell(recs@[i as int].unwrap(), c))));
                        if c == 0 {
                        } else if c == 1 {
                        } else if c == 2 {
                        } else if c == 3 {
                        } else if c == 4 {
                        } else {
                        }
                    }
                    assert forall|row: int|
                        0 <= row < i + 1 implies services_view(services@)[row]
                        == spur_services_expected(recs@, i + 1 as int)[row] by {
                        if row < i {
                            assert(services_view(prev)[row] == spur_services_expected(
                                recs@,
                                i as int,
                            )[row]);
                        }
                    }
                    assert(services_view(services@) =~= spur_services_expected(
                        recs@,
                        i + 1 as int,
                    ));
                }
            },
            None => {
                let mut c: usize = 0;
                while c < 6
                    invariant
                        0 <= c <= 6,
                        builders@.len() == 6,
                        i < recs@.len(),
                        recs@[i as int] is None,
                        forall|k: int|
                            0 <= k < 6 ==> bw_kind(#[trigger] builders@[k]) == spur_kind(k),
                        forall|k: int|
                            0 <= k < c ==> bw_view(#[trigger] builders@[k]) =~= spur_expected(
                                recs@,
                                k,
                                i + 1 as int,
                            ),
                        forall|k: int|
                            c <= k < 6 ==> bw_view(#[trigger] builders@[k]) =~= spur_expected(
                                recs@,
                                k,
                                i as int,
                            ),
                    decreases 6 - c,
                {
                    builders[c].append_null();
                    proof {
                        assert(spur_expected(recs@, c as int, i + 1 as int) =~= spur_expected(
                            recs@,
                            c as int,
                            i as int,
                        ).push(None));
                    }
                    c = c + 1;
                }
                let ghost prev = services@;
                services.push(None);
                proof {
                    assert forall|row: int|
                        0 <= row < i + 1 implies services_view(services@)[row]
                        == spur_services_expected(recs@, i + 1 as int)[row] by {
                        if row < i {
                            assert(services_view(prev)[row] == spur_services_expected(
                                recs@,
                                i as int,
                            )[row]);
                        }
                    }
                    assert(services_view(services@) =~= spur_services_expected(
                        recs@,
                        i + 1 as int,
                    ));
                }
            },
        }
        i = i + 1;
    }
    let mut cols: Vec<Column> = Vec::new();
    while builders.len() > 0
        invariant
            builders@.len() + cols@.len() == 6,
            i == recs@.len(),
            forall|k: int|
                0 <= k < builders@.len() ==> bw_kind(#[trigger] builders@[k]) == spur_kind(
                    k + cols@.len(),
                ) && bw_view(builders@[k]) =~= spur_expected(
                    recs@,
                    k + cols@.len(),
                    recs@.len() as int,
                ),
            forall|k: int|
                0 <= k < cols@.len() ==> col_kind(#[trigger] cols@[k]) == spur_kind(k)
                    && col_view(cols@[k]) =~= spur_expected(recs@, k, recs@.len() as int),
        decreases builders@.len(),
    {
        let b = builders.remove(0);
        cols.push(b.finish());
    }
    proof {
        assert forall|c2: int| 0 <= c2 < 6 implies col_kind(#[trigger] cols@[c2])
            == builder_kind_for(spur_schema()[c2].1) by {
            lemma_spur_schema_kinds(c2);
        }
    }
    (cols, services)
}

} // verus!

//! The per-call parameters and the enum-dispatched column accumulator: one
//! variant per supported scalar kind plus an explicit unsupported-type
//! variant that always yields nulls, so a schema mismatch shows up as nulls
//! rather than a panic.

use vstd::prelude::*;

verus! {

/// Per-call parameters of the enrichment entry points.
pub struct MMDBKwargs {
    /// Reload and reinitialize the database handles before querying.
    pub reload_mmdb: bool,
}

/// One cell value to append into a column accumulator. Floating-point cells
/// carry bit patterns.
#[derive(Debug)]
pub enum CellValue {
    UInt32(u32),
    Float32Bits(u32),
    Float64Bits(u64),
    Text(String),
}

/// The scalar kind of a column accumulator.
#[derive(Debug, PartialEq, Eq, Structural, Clone, Copy)]
pub enum ColKind {
    UInt32,
    Float32,
    Float64,
    Text,
    Invalid,
}

/// A declared field type of an output schema. List-typed fields go through
/// a distinct path and have no scalar accumulator.
#[derive(Debug, PartialEq, Eq, Structural, Clone, Copy)]
pub enum FieldType {
    UInt32,
    Float32,
    Float64,
    Text,
    ListText,
}

/// The accumulator kind that serves a declared field type.
pub open spec fn builder_kind_for(t: FieldType) -> ColKind {
    match t {
        FieldType::UInt32 => ColKind::UInt32,
        FieldType::Float32 => ColKind::Float32,
        FieldType::Float64 => ColKind::Float64,
        FieldType::Text => ColKind::Text,
        FieldType::ListText => ColKind::Invalid,
    }
}

/// Whether a cell value is of the kind an accumulator stores. Nothing is of
/// the unsupported kind.
pub open spec fn cell_matches(k: ColKind, v: CellValue) -> bool {
    match (k, v) {
        (ColKind::UInt32, CellValue::UInt32(_)) => true,
        (ColKind::Float32, CellValue::Float32Bits(_)) => true,
        (ColKind::Float64, CellValue::Float64Bits(_)) => true,
        (ColKind::Text, CellValue::Text(_)) => true,
        _ => false,
    }
}

/// A column accumulator: per-kind rows of optional cells, or a counter of
/// nulls for an unsupported field type.
#[derive(Debug)]
pub enum BuilderWrapper {
    UInt32(Vec<Option<u32>>),
    Float32(Vec<Option<u32>>),
    Float64(Vec<Option<u64>>),
    Text(Vec<Option<String>>),
    Invalid(usize),
}

/// A finished output column.
#[derive(Debug)]
pub enum Column {
    UInt32(Vec<Option<u32>>),
    Float32(Vec<Option<u32>>),
    Float64(Vec<Option<u64>>),
    Text(Vec<Option<String>>),
    Nulls(usize),
}

pub open spec fn bw_kind(b: BuilderWrapper) -> ColKind {
    match b {
        BuilderWrapper::UInt32(_) => ColKind::UInt32,
        BuilderWrapper::Float32(_) => ColKind::Float32,
        BuilderWrapper::Float64(_) => ColKind::Float64,
        BuilderWrapper::Text(_) => ColKind::Text,
        BuilderWrapper::Invalid(_) => ColKind::Invalid,
    }
}

/// The cells of an accumulator, seen uniformly.
pub open spec fn bw_view(b: BuilderWrapper) -> Seq<Option<CellValue>> {
    match b {
        BuilderWrapper::UInt32(xs) => xs@.map_values(
            |o: Option<u32>|
                match o {
                    Some(x) => Some(CellValue::UInt32(x)),
                    None => None,
                },
        ),
        BuilderWrapper::Float32(xs) => xs@.map_values(
            |o: Option<u32>|
                match o {
                    Some(x) => Some(CellValue::Float32Bits(x)),
                    None => None,
                },
        ),
        BuilderWrapper::Float64(xs) => xs@.map_values(
            |o: Option<u64>|
                match o {
                    Some(x) => Some(CellValue::Float64Bits(x)),
                    None => None,
                },
        ),
        BuilderWrapper::Text(xs) => xs@.map_values(
            |o: Option<String>|
                match o {
                    Some(x) => Some(CellValue::Text(x)),
                    None => None,
                },
        ),
        BuilderWrapper::Invalid(n) => Seq::new(n as nat, |i: int| None),
    }
}

pub open spec fn col_kind(c: Column) -> ColKind {
    match c {
        Column::UInt32(_) => ColKind::UInt32,
        Column::Float32(_) => ColKind::Float32,
        Column::Float64(_) => ColKind::Float64,
        Column::Text(_) => ColKind::Text,
        Column::Nulls(_) => ColKind::Invalid,
    }
}

/// The cells of a finished column, seen uniformly.
pub open spec fn col_view(c: Column) -> Seq<Option<CellValue>> {
    match c {
        Column::UInt32(xs) => bw_view(BuilderWrapper::UInt32(xs)),
        Column::Float32(xs) => bw_view(BuilderWrapper::Float32(xs)),
        Column::Float64(xs) => bw_view(BuilderWrapper::Float64(xs)),
        Column::Text(xs) => bw_view(BuilderWrapper::Text(xs)),
        Column::Nulls(n) => Seq::new(n as nat, |i: int| None),
    }
}

impl BuilderWrapper {
    /// An empty accumulator of the kind serving the declared field type.
    pub fn new_for(t: FieldType) -> (r: BuilderWrapper)
        ensures
            bw_kind(r) == builder_kind_for(t),
            bw_view(r) =~= Seq::<Option<CellValue>>::empty(),
    {
        match t {
            FieldType::UInt32 => BuilderWrapper::UInt32(Vec::new()),
            FieldType::Float32 => BuilderWrapper::Float32(Vec::new()),
            FieldType::Float64 => BuilderWrapper::Float64(Vec::new()),
            FieldType::Text => BuilderWrapper::Text(Vec::new()),
            FieldType::ListText => BuilderWrapper::Invalid(0),
        }
    }

    /// Appends one cell: the value itself when it is of the accumulator's
    /// kind, a null otherwise.
    pub fn append_value(&mut self, value: CellValue)
        requires
            bw_len(*old(self)) < usize::MAX,
        ensures
            bw_kind(*final(self)) == bw_kind(*old(self)),
            bw_view(*final(self)) =~= bw_view(*old(self)).push(
                if cell_matches(bw_kind(*old(self)), value) {
                    Some(value)
                } else {
                    None
                },
            ),
    {
        match self {
            BuilderWrapper::UInt32(xs) => match value {
                CellValue::UInt32(x) => xs.push(Some(x)),
                _ => xs.push(None),
            },
            BuilderWrapper::Float32(xs) => match value {
                CellValue::Float32Bits(x) => xs.push(Some(x)),
                _ => xs.push(None),
            },
            BuilderWrapper::Float64(xs) => match value {
                CellValue::Float64Bits(x) => xs.push(Some(x)),
                _ => xs.push(None),
            },
            BuilderWrapper::Text(xs) => match value {
                CellValue::Text(x) => xs.push(Some(x)),
                _ => xs.push(None),
            },
            BuilderWrapper::Invalid(n) => {
                *n = *n + 1;
            },
        }
    }

    /// Appends one null cell.
    pub fn append_null(&mut self)
        requires
            bw_len(*old(self)) < usize::MAX,
        ensures
            bw_kind(*final(self)) == bw_kind(*old(self)),
            bw_view(*final(self)) =~= bw_view(*old(self)).push(None),
    {
        match self {
            BuilderWrapper::UInt32(xs) => xs.push(None),
            BuilderWrapper::Float32(xs) => xs.push(None),
            BuilderWrapper::Float64(xs) => xs.push(None),
            BuilderWrapper::Text(xs) => xs.push(None),
            BuilderWrapper::Invalid(n) => {
                *n = *n + 1;
            },
        }
    }

    /// Freezes the accumulator into its output column.
    pub fn finish(self) -> (r: Column)
        ensures
            col_kind(r) == bw_kind(self),
            col_view(r) =~= bw_view(self),
    {
        match self {
            BuilderWrapper::UInt32(xs) => Column::UInt32(xs),
            BuilderWrapper::Float32(xs) => Column::Float32(xs),
            BuilderWrapper::Float64(xs) => Column::Float64(xs),
            BuilderWrapper::Text(xs) => Column::Text(xs),
            BuilderWrapper::Invalid(n) => Column::Nulls(n),
        }
    }
}

/// The number of cells held so far.
pub open spec fn bw_len(b: BuilderWrapper) -> nat {
    bw_view(b).len()
}

/// One accumulator per declared field, each of the kind its type asks for,
/// with the unsupported kinds mapped to the always-null accumulator.
#[verifier::loop_isolation(false)]
pub fn create_builders(fields: &Vec<(String, FieldType)>, capacity: usize) -> (r: Vec<
    BuilderWrapper,
>)
    ensures
        r@.len() == fields@.len(),
        forall|i: int|
            0 <= i < fields@.len() ==> bw_kind(#[trigger] r@[i]) == builder_kind_for(
                fields@[i].1,
            ) && bw_view(r@[i]) =~= Seq::<Option<CellValue>>::empty(),
{
    let mut out: Vec<BuilderWrapper> = Vec::with_capacity(capacity);
    let mut i: usize = 0;
    while i < fields.len()
        invariant
            0 <= i <= fields@.len(),
            out@.len() == i,
            forall|j: int|
                0 <= j < i ==> bw_kind(#[trigger] out@[j]) == builder_kind_for(fields@[j].1)
                    && bw_view(out@[j]) =~= Seq::<Option<CellValue>>::empty(),
        decreases fields@.len() - i,
    {
        out.push(BuilderWrapper::new_for(fields[i].1));
        i = i + 1;
    }
    out
}

} // verus!

//! A chunk: a group of equally long columns, each a full column of values
//! or one scalar standing for every row.
use vstd::prelude::*;

use crate::scalar::Literal;
use crate::types::DataType;

verus! {

/// A column's contents: one value for every row, or a value per row.
#[derive(Debug)]
pub enum Value {
    Scalar(Literal),
    Column(Vec<Literal>),
}

/// A column of a chunk, with its id and type.
#[derive(Debug)]
pub struct ChunkEntry {
    pub id: usize,
    pub data_type: DataType,
    pub value: Value,
}

/// Extra information carried along with a chunk.
#[derive(Clone, Debug)]
pub struct ChunkMetaInfo {
    pub name: String,
}

/// A field of a schema.
#[derive(Clone, Debug)]
pub struct DataField {
    pub name: String,
    pub data_type: DataType,
}

/// The fields that the columns of a chunk are to have, in order.
#[derive(Clone, Debug)]
pub struct DataSchema {
    pub fields: Vec<DataField>,
}

/// The values of a column of `num_rows` rows, a scalar repeated on every row.
pub open spec fn full_values(v: Value, num_rows: nat) -> Seq<Literal> {
    match v {
        Value::Scalar(s) => Seq::new(num_rows, |_i: int| s),
        Value::Column(c) => c@,
    }
}

/// The value fits a chunk of `num_rows` rows.
pub open spec fn value_fits(v: Value, num_rows: nat) -> bool {
    match v {
        Value::Scalar(_) => true,
        Value::Column(c) => c@.len() == num_rows,
    }
}

/// `new` is `old` with its values expanded to a full column of `n` rows.
pub open spec fn is_full_copy(new: ChunkEntry, old: ChunkEntry, n: nat) -> bool {
    new.id == old.id && new.data_type == old.data_type && new.value is Column && value_fits(
        new.value,
        n,
    ) && full_values(new.value, n) == full_values(old.value, n)
}

/// `new` holds rows `start..end` of `old`, a column of `n` rows; a scalar stays a scalar.
pub open spec fn is_slice_copy(new: ChunkEntry, old: ChunkEntry, n: nat, start: int, end: int) -> bool {
    new.id == old.id && new.data_type == old.data_type && (new.value is Scalar
        == old.value is Scalar) && (old.value matches Value::Scalar(s) ==> new.value
        == Value::Scalar(s)) && value_fits(new.value, (end - start) as nat) && full_values(
        new.value,
        (end - start) as nat,
    ) == full_values(old.value, n).subrange(start, end)
}

/// A lightweight container for a group of columns.
#[derive(Debug)]
pub struct Chunk {
    columns: Vec<ChunkEntry>,
    num_rows: usize,
    meta: Option<ChunkMetaInfo>,
}

fn copy_literal(l: &Literal) -> (r: Literal)
    ensures
        r == *l,
{
    match l {
        Literal::Null => Literal::Null,
        Literal::Boolean(b) => Literal::Boolean(*b),
        Literal::Int64(i) => Literal::Int64(*i),
        Literal::UInt64(u) => Literal::UInt64(*u),
        Literal::String(s) => Literal::String(s.clone()),
    }
}

fn copy_meta(m: &Option<ChunkMetaInfo>) -> (r: Option<ChunkMetaInfo>)
    ensures
        r == *m,
{
    match m {
        Some(info) => Some(ChunkMetaInfo { name: info.name.clone() }),
        None => None,
    }
}

/// The values `v[start..end]`.
fn copy_range(v: &Vec<Literal>, start: usize, end: usize) -> (r: Vec<Literal>)
    requires
        start <= end <= v@.len(),
    ensures
        r@ == v@.subrange(start as int, end as int),
{
    let mut r: Vec<Literal> = Vec::new();
    let mut i = start;
    while i < end
        invariant
            start <= i <= end <= v@.len(),
            r@ == v@.subrange(start as int, i as int),
        decreases end - i,
    {
        r.push(copy_literal(&v[i]));
        assert(r@ =~= v@.subrange(start as int, i + 1));
        i += 1;
    }
    r
}

/// `n` copies of `s`.
fn repeat_literal(s: &Literal, n: usize) -> (r: Vec<Literal>)
    ensures
        r@ == Seq::new(n as nat, |_i: int| *s),
{
    let mut r: Vec<Literal> = Vec::new();
    let mut i: usize = 0;
    while i < n
        invariant
            0 <= i <= n,
            r@ == Seq::new(i as nat, |_i: int| *s),
        decreases n - i,
    {
        r.push(copy_literal(s));
        assert(r@ =~= Seq::new((i + 1) as nat, |_i: int| *s));
        i += 1;
    }
    r
}

impl ChunkEntry {
    /// A copy of the entry.
    pub fn duplicate(&self) -> (r: ChunkEntry)
        ensures
            r.id == self.id,
            r.data_type == self.data_type,
            match (r.value, self.value) {
                (Value::Scalar(a), Value::Scalar(b)) => a == b,
                (Value::Column(a), Value::Column(b)) => a@ == b@,
                _ => false,
            },
    {
        let value = match &self.value {
            Value::Scalar(s) => Value::Scalar(copy_literal(s)),
            Value::Column(c) => {
                let r = copy_range(c, 0, c.len());
                assert(c@.subrange(0, c@.len() as int) =~= c@);
                Value::Column(r)
            },
        };
        ChunkEntry { id: self.id, data_type: self.data_type, value }
    }
}

impl Chunk {
    /// The columns, in order.
    pub closed spec fn entries(&self) -> Seq<ChunkEntry> {
        self.columns@
    }

    pub closed spec fn spec_num_rows(&self) -> nat {
        self.num_rows as nat
    }

    pub closed spec fn spec_meta(&self) -> Option<ChunkMetaInfo> {
        self.meta
    }

    /// Every column has one value per row, or is a scalar.
    pub open spec fn wf(&self) -> bool {
        forall|i: int|
            0 <= i < self.entries().len() ==> #[trigger] value_fits(
                self.entries()[i].value,
                self.spec_num_rows(),
            )
    }

    pub fn new(columns: Vec<ChunkEntry>, num_rows: usize) -> (r: Chunk)
        requires
            forall|i: int|
                0 <= i < columns@.len() ==> #[trigger] value_fits(columns@[i].value, num_rows as nat),
        ensures
            r.wf(),
            r.entries() == columns@,
            r.spec_num_rows() == num_rows,
            r.spec_meta() is None,
    {
        Chunk { columns, num_rows, meta: None }
    }

    pub fn new_with_meta(columns: Vec<ChunkEntry>, num_rows: usize, meta: Option<ChunkMetaInfo>) -> (r:
        Chunk)
        requires
            forall|i: int|
                0 <= i < columns@.len() ==> #[trigger] value_fits(columns@[i].value, num_rows as nat),
        ensures
            r.wf(),
            r.entries() == columns@,
            r.spec_num_rows() == num_rows,
            r.spec_meta() == meta,
    {
        Chunk { columns, num_rows, meta }
    }

    /// A chunk of no columns and no rows.
    pub fn empty() -> (r: Chunk)
        ensures
            r.wf(),
            r.entries().len() == 0,
            r.spec_num_rows() == 0,
            r.spec_meta() is None,
    {
        Chunk::new(Vec::new(), 0)
    }

    pub fn columns(&self) -> (r: &Vec<ChunkEntry>)
        ensures
            r@ == self.entries(),
    {
        &self.columns
    }

    pub fn get_by_offset(&self, offset: usize) -> (r: &ChunkEntry)
        requires
            offset < self.entries().len(),
        ensures
            *r == self.entries()[offset as int],
    {
        &self.columns[offset]
    }

    /// The first column with id `id`, which must be present.
    pub fn get_by_id(&self, id: usize) -> (r: &ChunkEntry)
        requires
            exists|i: int| 0 <= i < self.entries().len() && #[trigger] self.entries()[i].id == id,
        ensures
            exists|i: int|
                0 <= i < self.entries().len() && *r == self.entries()[i] && (forall|k: int|
                    0 <= k < i ==> #[trigger] self.entries()[k].id != id),
            r.id == id,
    {
        let mut i: usize = 0;
        while i < self.columns.len()
            invariant
                0 <= i <= self.columns@.len(),
                forall|k: int| 0 <= k < i ==> #[trigger] self.columns@[k].id != id,
                exists|j: int| 0 <= j < self.columns@.len() && #[trigger] self.columns@[j].id == id,
            decreases self.columns.len() - i,
        {
            if self.columns[i].id == id {
                assert(self.entries()[i as int] == self.columns@[i as int]);
                return &self.columns[i];
            }
            i += 1;
        }
        proof {
            let j = choose|j: int| 0 <= j < self.columns@.len() && #[trigger] self.columns@[j].id == id;
            assert(self.columns@[j].id != id);
        }
        &self.columns[0]
    }

    pub fn num_rows(&self) -> (r: usize)
        ensures
            r == self.spec_num_rows(),
    {
        self.num_rows
    }

    pub fn num_columns(&self) -> (r: usize)
        ensures
            r == self.entries().len(),
    {
        self.columns.len()
    }

    /// No columns, or no rows.
    pub fn is_empty(&self) -> (r: bool)
        ensures
            r == (self.entries().len() == 0 || self.spec_num_rows() == 0),
    {
        self.num_columns() == 0 || self.num_rows() == 0
    }

    /// The same chunk with every scalar column expanded to a full column.
    pub fn convert_to_full(&self) -> (r: Chunk)
        requires
            self.wf(),
        ensures
            r.wf(),
            r.spec_num_rows() == self.spec_num_rows(),
            r.spec_meta() == self.spec_meta(),
            r.entries().len() == self.entries().len(),
            forall|i: int|
                0 <= i < r.entries().len() ==> is_full_copy(
                    #[trigger] r.entries()[i],
                    self.entries()[i],
                    self.spec_num_rows(),
                ),
    {
        let mut columns: Vec<ChunkEntry> = Vec::new();
        let mut i: usize = 0;
        while i < self.columns.len()
            invariant
                self.wf(),
                0 <= i <= self.columns@.len(),
                columns@.len() == i,
                forall|k: int|
                    0 <= k < i ==> is_full_copy(
                        #[trigger] columns@[k],
                        self.columns@[k],
                        self.num_rows as nat,
                    ),
            decreases self.columns.len() - i,
        {
            let entry = &self.columns[i];
            assert(value_fits(self.entries()[i as int].value, self.spec_num_rows()));
            let values = match &entry.value {
                Value::Scalar(s) => repeat_literal(s, self.num_rows),
                Value::Column(c) => {
                    assert(value_fits(self.entries()[i as int].value, self.spec_num_rows()));
                    let r = copy_range(c, 0, c.len());
                    assert(c@.subrange(0, c@.len() as int) =~= c@);
                    r
                },
            };
            assert(values@ =~= full_values(entry.value, self.num_rows as nat));
            let ghost vs = values@;
            columns.push(
                ChunkEntry { id: entry.id, data_type: entry.data_type, value: Value::Column(values) },
            );
            assert(is_full_copy(columns@[i as int], self.columns@[i as int], self.num_rows as nat));
            i += 1;
        }
        let r = Chunk { columns, num_rows: self.num_rows, meta: copy_meta(&self.meta) };
        assert forall|k: int| 0 <= k < r.entries().len() implies #[trigger] value_fits(
            r.entries()[k].value,
            r.spec_num_rows(),
        ) by {
            assert(r.entries()[k] == columns@[k]);
            assert(is_full_copy(columns@[k], self.columns@[k], self.num_rows as nat));
        }
        r
    }

    /// The chunk unchanged: its columns already have the schema's types.
    pub fn fit_schema(&self, schema: DataSchema) -> (r: Chunk)
        requires
            self.wf(),
            self.entries().len() == schema.fields@.len(),
            forall|i: int|
                0 <= i < self.entries().len() ==> #[trigger] self.entries()[i].data_type
                    == schema.fields@[i].data_type,
        ensures
            r.wf(),
            r.spec_num_rows() == self.spec_num_rows(),
            r.spec_meta() == self.spec_meta(),
            r.entries().len() == self.entries().len(),
            forall|i: int|
                0 <= i < r.entries().len() ==> is_slice_copy(
                    #[trigger] r.entries()[i],
                    self.entries()[i],
                    self.spec_num_rows(),
                    0,
                    self.spec_num_rows() as int,
                ),
    {
        self.slice(0..self.num_rows)
    }

    /// The rows in `range` of every column; scalar columns stay scalars.
    pub fn slice(&self, range: std::ops::Range<usize>) -> (r: Chunk)
        requires
            self.wf(),
            range.start <= range.end <= self.spec_num_rows(),
        ensures
            r.wf(),
            r.spec_num_rows() == range.end - range.start,
            r.spec_meta() == self.spec_meta(),
            r.entries().len() == self.entries().len(),
            forall|i: int|
                0 <= i < r.entries().len() ==> is_slice_copy(
                    #[trigger] r.entries()[i],
                    self.entries()[i],
                    self.spec_num_rows(),
                    range.start as int,
                    range.end as int,
                ),
    {
        let start = range.start;
        let end = range.end;
        let mut columns: Vec<ChunkEntry> = Vec::new();
        let mut i: usize = 0;
        let ghost n = (end - start) as nat;
        while i < self.columns.len()
            invariant
                self.wf(),
                start <= end <= self.num_rows,
                n == end - start,
                0 <= i <= self.columns@.len(),
                columns@.len() == i,
                forall|k: int|
                    0 <= k < i ==> is_slice_copy(
                        #[trigger] columns@[k],
                        self.columns@[k],
                        self.num_rows as nat,
                        start as int,
                        end as int,
                    ),
            decreases self.columns.len() - i,
        {
            let entry = &self.columns[i];
            assert(value_fits(self.entries()[i as int].value, self.spec_num_rows()));
            let value = match &entry.value {
                Value::Scalar(s) => {
                    let v = Value::Scalar(copy_literal(s));
                    assert(full_values(v, n) =~= full_values(entry.value, self.num_rows as nat).subrange(
                        start as int,
                        end as int,
                    ));
                    v
                },
                Value::Column(c) => {
                    let v = copy_range(c, start, end);
                    assert(v@ == full_values(entry.value, self.num_rows as nat).subrange(
                        start as int,
                        end as int,
                    ));
                    Value::Column(v)
                },
            };
            columns.push(ChunkEntry { id: entry.id, data_type: entry.data_type, value });
            assert(is_slice_copy(
                columns@[i as int],
                self.columns@[i as int],
                self.num_rows as nat,
                start as int,
                end as int,
            ));
            i += 1;
        }
        let r = Chunk { columns, num_rows: end - start, meta: copy_meta(&self.meta) };
        assert forall|k: int| 0 <= k < r.entries().len() implies #[trigger] value_fits(
            r.entries()[k].value,
            r.spec_num_rows(),
        ) by {
            assert(r.entries()[k] == columns@[k]);
        }
        r
    }

    /// Appends a column that fits the chunk's rows.
    pub fn add_column(&mut self, column: ChunkEntry)
        requires
            old(self).wf(),
            value_fits(column.value, old(self).spec_num_rows()),
        ensures
            final(self).wf(),
            final(self).entries() == old(self).entries().push(column),
            final(self).spec_num_rows() == old(self).spec_num_rows(),
            final(self).spec_meta() == old(self).spec_meta(),
    {
        self.columns.push(column);
    }

    /// The chunk without its column at offset `idx`.
    pub fn remove_column_index(self, idx: usize) -> (r: Result<Chunk, crate::error::ErrorCode>)
        requires
            self.wf(),
            idx < self.entries().len(),
        ensures
            r matches Ok(c) && c.wf() && c.entries() == self.entries().remove(idx as int)
                && c.spec_num_rows() == self.spec_num_rows() && c.spec_meta() == self.spec_meta(),
    {
        let ghost s0 = self;
        let Chunk { mut columns, num_rows, meta } = self;
        let ghost before = columns@;
        columns.remove(idx);
        let r = Chunk { columns, num_rows, meta };
        assert forall|k: int| 0 <= k < r.entries().len() implies #[trigger] value_fits(
            r.entries()[k].value,
            r.spec_num_rows(),
        ) by {
            if k < idx {
                assert(r.entries()[k] == before[k]);
                assert(value_fits(s0.entries()[k].value, s0.spec_num_rows()));
            } else {
                assert(r.entries()[k] == before[k + 1]);
                assert(value_fits(s0.entries()[k + 1].value, s0.spec_num_rows()));
            }
        }
        Ok(r)
    }

    /// The chunk with its meta replaced by `meta`.
    pub fn add_meta(self, meta: Option<ChunkMetaInfo>) -> (r: Result<Chunk, crate::error::ErrorCode>)
        ensures
            r matches Ok(c) && c.entries() == self.entries() && c.spec_num_rows()
                == self.spec_num_rows() && c.spec_meta() == meta && (self.wf() ==> c.wf()),
    {
        Ok(Chunk { columns: self.columns, num_rows: self.num_rows, meta })
    }

    /// A copy of the meta.
    pub fn meta(&self) -> (r: Result<Option<ChunkMetaInfo>, crate::error::ErrorCode>)
        ensures
            r == Ok::<Option<ChunkMetaInfo>, crate::error::ErrorCode>(self.spec_meta()),
    {
        Ok(copy_meta(&self.meta))
    }

    pub fn get_meta(&self) -> (r: Option<&ChunkMetaInfo>)
        ensures
            r == match self.spec_meta() {
                Some(m) => Some(&m),
                None => None::<&ChunkMetaInfo>,
            },
    {
        self.meta.as_ref()
    }
}

} // verus!

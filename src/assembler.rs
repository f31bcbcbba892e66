use vstd::prelude::*;
use crate::cell::{Cell, ZERO_BITS, field_at, read_field, trunc_id, truncate_to_id};

verus! {

/// One logical record, read from an identifier row and at most one
/// continuation row. Each field series holds binary64 bit patterns, in the
/// order of the rows they were read from.
pub struct Record {
    pub id: i32,
    pub field1: Vec<u64>,
    pub field2: Vec<u64>,
    pub field3: Vec<u64>,
    pub field4: Vec<u64>,
}

/// The mathematical value of a `Record`.
pub struct RecordModel {
    pub id: i32,
    pub field1: Seq<u64>,
    pub field2: Seq<u64>,
    pub field3: Seq<u64>,
    pub field4: Seq<u64>,
}

impl View for Record {
    type V = RecordModel;

    open spec fn view(&self) -> RecordModel {
        RecordModel {
            id: self.id,
            field1: self.field1@,
            field2: self.field2@,
            field3: self.field3@,
            field4: self.field4@,
        }
    }
}

impl RecordModel {
    /// Number of physical rows the record was read from.
    pub open spec fn rows(self) -> nat {
        self.field1.len()
    }

    /// All four field series have one common length, 1 or 2.
    pub open spec fn wf(self) -> bool {
        &&& 1 <= self.field1.len() <= 2
        &&& self.field2.len() == self.field1.len()
        &&& self.field3.len() == self.field1.len()
        &&& self.field4.len() == self.field1.len()
    }
}

/// A worksheet's name and its rows, in sheet order.
pub struct SheetRows {
    pub name: String,
    pub rows: Vec<Vec<Cell>>,
}

/// A worksheet's name and the records assembled from its rows.
pub struct Sheet {
    pub name: String,
    pub records: Vec<Record>,
}

/// How a row is treated, by its first cell.
pub enum RowKind {
    /// The first cell is numeric; it carries the bit pattern of the value.
    Identifier(u64),
    /// The first cell is missing, empty or text.
    Continuation,
    /// The first cell holds any other kind of value.
    Unrecognized,
}

pub open spec fn kind_of(row: Seq<Cell>) -> RowKind {
    if row.len() == 0 {
        RowKind::Continuation
    } else {
        match row[0] {
            Cell::Number(b) => RowKind::Identifier(b),
            Cell::Empty => RowKind::Continuation,
            Cell::Text => RowKind::Continuation,
            Cell::Other => RowKind::Unrecognized,
        }
    }
}

/// The record opened by an identifier row whose first cell holds `bits`.
pub open spec fn opened(row: Seq<Cell>, bits: u64) -> RecordModel {
    RecordModel {
        id: trunc_id(bits),
        field1: seq![field_at(row, 1)],
        field2: seq![field_at(row, 2)],
        field3: seq![field_at(row, 3)],
        field4: seq![field_at(row, 4)],
    }
}

/// `r` with the field values of a continuation row appended.
pub open spec fn extended(r: RecordModel, row: Seq<Cell>) -> RecordModel {
    RecordModel {
        id: r.id,
        field1: r.field1.push(field_at(row, 1)),
        field2: r.field2.push(field_at(row, 2)),
        field3: r.field3.push(field_at(row, 3)),
        field4: r.field4.push(field_at(row, 4)),
    }
}

/// State of the assembly of one sheet: the sealed records, and the record
/// still open, if any.
pub struct AssemblyModel {
    pub sealed: Seq<RecordModel>,
    pub pending: Option<RecordModel>,
}

/// `s` with its open record, if any, sealed.
pub open spec fn flushed(s: AssemblyModel) -> Seq<RecordModel> {
    match s.pending {
        Some(p) => s.sealed.push(p),
        None => s.sealed,
    }
}

/// One transition of the assembly on a row.
pub open spec fn step(s: AssemblyModel, row: Seq<Cell>) -> AssemblyModel {
    match kind_of(row) {
        RowKind::Identifier(b) => AssemblyModel { sealed: flushed(s), pending: Some(opened(row, b)) },
        RowKind::Continuation => match s.pending {
            Some(p) => if p.rows() == 1 {
                AssemblyModel { sealed: s.sealed, pending: Some(extended(p, row)) }
            } else {
                s
            },
            None => s,
        },
        RowKind::Unrecognized => s,
    }
}

/// The state after the rows `rows`, from the start of a sheet.
pub open spec fn run(rows: Seq<Vec<Cell>>) -> AssemblyModel
    decreases rows.len(),
{
    if rows.len() == 0 {
        AssemblyModel { sealed: Seq::empty(), pending: None }
    } else {
        step(run(rows.drop_last()), rows.last()@)
    }
}

/// The records of a sheet with rows `rows`.
pub open spec fn assembled(rows: Seq<Vec<Cell>>) -> Seq<RecordModel> {
    flushed(run(rows))
}

pub open spec fn models(v: Seq<Record>) -> Seq<RecordModel> {
    v.map_values(|r: Record| r@)
}

pub open spec fn model_of(p: Option<Record>) -> Option<RecordModel> {
    match p {
        Some(r) => Some(r@),
        None => None,
    }
}

pub open spec fn all_wf(s: Seq<RecordModel>) -> bool {
    forall|i: int| 0 <= i < s.len() ==> #[trigger] s[i].wf()
}

pub open spec fn state_wf(s: AssemblyModel) -> bool {
    &&& all_wf(s.sealed)
    &&& match s.pending {
        Some(p) => p.wf(),
        None => true,
    }
}

/// Every record sealed or open during the assembly of a sheet has field
/// series of one common length, 1 or 2.
pub proof fn lemma_run_wf(rows: Seq<Vec<Cell>>)
    ensures
        state_wf(run(rows)),
    decreases rows.len(),
{
    if rows.len() > 0 {
        lemma_run_wf(rows.drop_last());
    }
}

/// Every record of every sheet has field series of one common, non-zero
/// length of at most 2.
pub proof fn lemma_assembled_wf(rows: Seq<Vec<Cell>>)
    ensures
        all_wf(assembled(rows)),
{
    lemma_run_wf(rows);
}

/// Field series number `col` (1 to 4) of a record.
pub open spec fn series(r: RecordModel, col: int) -> Seq<u64> {
    if col == 1 {
        r.field1
    } else if col == 2 {
        r.field2
    } else if col == 3 {
        r.field3
    } else {
        r.field4
    }
}

/// Column `col` of `row` is absent or holds no number.
pub open spec fn lacks_number(row: Seq<Cell>, col: int) -> bool {
    col >= row.len() || !(row[col] is Number)
}

/// A field column that is absent or not numeric, on an identifier row or on
/// a continuation row that extends the open record, contributes the value
/// `0.0` to its position of the series.
pub proof fn lemma_missing_field_reads_zero(s: AssemblyModel, row: Seq<Cell>, col: int)
    requires
        1 <= col <= 4,
        lacks_number(row, col),
    ensures
        kind_of(row) is Identifier ==> series(step(s, row).pending.unwrap(), col) == seq![ZERO_BITS],
        kind_of(row) is Continuation && s.pending is Some && s.pending.unwrap().rows() == 1
            ==> series(step(s, row).pending.unwrap(), col).last() == ZERO_BITS,
{
}

/// Classifies a row by its first cell.
pub fn classify(row: &Vec<Cell>) -> (k: RowKind)
    ensures
        k == kind_of(row@),
{
    if row.len() == 0 {
        RowKind::Continuation
    } else {
        match row[0] {
            Cell::Number(b) => RowKind::Identifier(b),
            Cell::Empty => RowKind::Continuation,
            Cell::Text => RowKind::Continuation,
            Cell::Other => RowKind::Unrecognized,
        }
    }
}

/// The assembler of one sheet: an explicit two-state machine, idle or with
/// one open record.
pub struct Assembler {
    pub sealed: Vec<Record>,
    pub pending: Option<Record>,
}

impl Assembler {
    pub open spec fn model(&self) -> AssemblyModel {
        AssemblyModel { sealed: models(self.sealed@), pending: model_of(self.pending) }
    }

    /// An assembler at the start of a sheet.
    pub fn new() -> (a: Assembler)
        ensures
            a.model() == run(Seq::empty()),
    {
        let a = Assembler { sealed: Vec::new(), pending: None };
        proof {
            assert(models(a.sealed@) =~= Seq::<RecordModel>::empty());
        }
        a
    }

    /// Feeds one row.
    pub fn push_row(&mut self, row: &Vec<Cell>)
        ensures
            final(self).model() == step(old(self).model(), row@),
    {
        match classify(row) {
            RowKind::Identifier(b) => {
                let prev = self.pending.take();
                match prev {
                    Some(p) => {
                        self.sealed.push(p);
                    },
                    None => {},
                }
                let r = Record {
                    id: truncate_to_id(b),
                    field1: vec![read_field(row, 1)],
                    field2: vec![read_field(row, 2)],
                    field3: vec![read_field(row, 3)],
                    field4: vec![read_field(row, 4)],
                };
                self.pending = Some(r);
                proof {
                    assert(models(self.sealed@) =~= flushed(old(self).model()));
                    assert(r.field1@ =~= seq![field_at(row@, 1)]);
                    assert(r.field2@ =~= seq![field_at(row@, 2)]);
                    assert(r.field3@ =~= seq![field_at(row@, 3)]);
                    assert(r.field4@ =~= seq![field_at(row@, 4)]);
                }
            },
            RowKind::Continuation => {
                let prev = self.pending.take();
                match prev {
                    Some(p) => {
                        let mut p = p;
                        if p.field1.len() == 1 {
                            p.field1.push(read_field(row, 1));
                            p.field2.push(read_field(row, 2));
                            p.field3.push(read_field(row, 3));
                            p.field4.push(read_field(row, 4));
                        }
                        self.pending = Some(p);
                    },
                    None => {},
                }
            },
            RowKind::Unrecognized => {},
        }
    }

    /// Seals the open record, if any, and hands out the records.
    pub fn finish(self) -> (v: Vec<Record>)
        ensures
            models(v@) == flushed(self.model()),
    {
        let mut v = self.sealed;
        match self.pending {
            Some(p) => {
                v.push(p);
            },
            None => {},
        }
        proof {
            assert(models(v@) =~= flushed(self.model()));
        }
        v
    }
}

/// Assembles the records of one sheet from its rows.
pub fn assemble_sheet(rows: &Vec<Vec<Cell>>) -> (v: Vec<Record>)
    ensures
        models(v@) == assembled(rows@),
        all_wf(models(v@)),
{
    let mut a = Assembler::new();
    let mut i: usize = 0;
    while i < rows.len()
        invariant
            0 <= i <= rows.len(),
            a.model() == run(rows@.take(i as int)),
        decreases rows.len() - i,
    {
        a.push_row(&rows[i]);
        proof {
            assert(rows@.take(i as int + 1).drop_last() =~= rows@.take(i as int));
        }
        i = i + 1;
    }
    proof {
        assert(rows@.take(i as int) =~= rows@);
        lemma_assembled_wf(rows@);
    }
    a.finish()
}

/// Assembles every sheet of a workbook, each from a fresh state, keeping the
/// order of the sheets; a sheet without records stays in the result.
pub fn assemble_workbook(sheets: &Vec<SheetRows>) -> (out: Vec<Sheet>)
    ensures
        out@.len() == sheets@.len(),
        forall|i: int|
            0 <= i < out@.len() ==> {
                &&& (#[trigger] out@[i]).name@ == sheets@[i].name@
                &&& models(out@[i].records@) == assembled(sheets@[i].rows@)
                &&& all_wf(models(out@[i].records@))
            },
{
    let mut out: Vec<Sheet> = Vec::new();
    let mut i: usize = 0;
    while i < sheets.len()
        invariant
            0 <= i <= sheets.len(),
            out@.len() == i,
            forall|j: int|
                0 <= j < i ==> {
                    &&& (#[trigger] out@[j]).name@ == sheets@[j].name@
                    &&& models(out@[j].records@) == assembled(sheets@[j].rows@)
                    &&& all_wf(models(out@[j].records@))
                },
        decreases sheets.len() - i,
    {
        let s = &sheets[i];
        let records = assemble_sheet(&s.rows);
        out.push(Sheet { name: s.name.clone(), records });
        i = i + 1;
    }
    out
}

} // verus!

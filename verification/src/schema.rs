//! The canonical columnar layout of the vector table, and the building of
//! write batches against it.
//!
//! The schema is the one cross-component contract of the store: table
//! creation and every write batch must carry the same columns, in the same
//! order, with the same types. Vector entries are raw 32-bit patterns; the
//! numeric reading of a stored vector belongs to the callers at the
//! border.

use vstd::prelude::*;

use crate::config::{EmbedRequest, EmbedResponse};
use crate::error::RagError;

verus! {

/// The column types the table layout uses.
#[derive(Debug, Clone, Copy, PartialEq, Eq, Structural)]
pub enum ColumnKind {
    /// A 32-bit signed integer column.
    Int32,
    /// A text column.
    Utf8,
    /// A fixed-size list of 32-bit entries, one list per row.
    FixedSizeList { dim: usize },
    /// A timestamp column with second resolution.
    TimestampSecond,
}

/// One column of the table layout.
#[derive(Debug, Clone)]
pub struct FieldDef {
    pub name: String,
    pub kind: ColumnKind,
    pub nullable: bool,
}

/// The mathematical image of a column definition.
pub struct FieldDefView {
    pub name: Seq<char>,
    pub kind: ColumnKind,
    pub nullable: bool,
}

impl View for FieldDef {
    type V = FieldDefView;

    open spec fn view(&self) -> FieldDefView {
        FieldDefView { name: self.name@, kind: self.kind, nullable: self.nullable }
    }
}

impl DeepView for FieldDef {
    type V = FieldDefView;

    open spec fn deep_view(&self) -> FieldDefView {
        self.view()
    }
}

/// The canonical column list: id, content, metadata, vector, model,
/// created_at, chunk_number — in this order, with these types.
pub open spec fn spec_canonical_fields(dim: int) -> Seq<FieldDefView> {
    seq![
        FieldDefView { name: "id"@, kind: ColumnKind::Int32, nullable: false },
        FieldDefView { name: "content"@, kind: ColumnKind::Utf8, nullable: false },
        FieldDefView { name: "metadata"@, kind: ColumnKind::Utf8, nullable: false },
        FieldDefView {
            name: "vector"@,
            kind: ColumnKind::FixedSizeList { dim: dim as usize },
            nullable: true,
        },
        FieldDefView { name: "model"@, kind: ColumnKind::Utf8, nullable: false },
        FieldDefView { name: "created_at"@, kind: ColumnKind::TimestampSecond, nullable: false },
        FieldDefView { name: "chunk_number"@, kind: ColumnKind::Int32, nullable: true },
    ]
}

/// A field-for-field copy of one column definition.
pub fn copy_field(f: &FieldDef) -> (r: FieldDef)
    ensures
        r@ == f@,
{
    FieldDef { name: f.name.clone(), kind: f.kind, nullable: f.nullable }
}

/// The named columns of the vector table, shared by table creation and
/// every write batch.
#[derive(Debug, Clone)]
pub struct TableSchema {
    pub name: String,
    pub id: FieldDef,
    pub content: FieldDef,
    pub metadata: FieldDef,
    pub vector: FieldDef,
    pub model: FieldDef,
    pub created_at: FieldDef,
    pub chunk_number: FieldDef,
}

impl TableSchema {
    /// The vector dimension the schema fixes.
    pub open spec fn spec_dim(&self) -> int {
        match self.vector@.kind {
            ColumnKind::FixedSizeList { dim } => dim as int,
            _ => 0,
        }
    }

    /// The schema's columns as the canonical ordered list.
    pub open spec fn spec_fields(&self) -> Seq<FieldDefView> {
        seq![
            self.id@,
            self.content@,
            self.metadata@,
            self.vector@,
            self.model@,
            self.created_at@,
            self.chunk_number@,
        ]
    }

    /// A well-formed schema carries exactly the canonical columns.
    pub open spec fn wf(&self) -> bool {
        self.spec_fields() == spec_canonical_fields(self.spec_dim()) && self.spec_dim() >= 1
    }

    /// The canonical schema for a table name, with the configured
    /// dimension of 768.
    pub fn new(table_name: &String) -> (r: TableSchema)
        ensures
            r.wf(),
            r.name@ == table_name@,
            r.spec_dim() == 768,
    {
        let r = TableSchema {
            name: table_name.clone(),
            id: FieldDef { name: "id".to_owned(), kind: ColumnKind::Int32, nullable: false },
            content: FieldDef {
                name: "content".to_owned(),
                kind: ColumnKind::Utf8,
                nullable: false,
            },
            metadata: FieldDef {
                name: "metadata".to_owned(),
                kind: ColumnKind::Utf8,
                nullable: false,
            },
            vector: FieldDef {
                name: "vector".to_owned(),
                kind: ColumnKind::FixedSizeList { dim: 768 },
                nullable: true,
            },
            model: FieldDef { name: "model".to_owned(), kind: ColumnKind::Utf8, nullable: false },
            created_at: FieldDef {
                name: "created_at".to_owned(),
                kind: ColumnKind::TimestampSecond,
                nullable: false,
            },
            chunk_number: FieldDef {
                name: "chunk_number".to_owned(),
                kind: ColumnKind::Int32,
                nullable: true,
            },
        };
        proof {
            assert(r.spec_fields() =~= spec_canonical_fields(768));
        }
        r
    }

    /// The ordered column list a write batch must match exactly.
    pub fn create_schema(&self) -> (r: Vec<FieldDef>)
        ensures
            r.deep_view() == self.spec_fields(),
    {
        let mut fields: Vec<FieldDef> = Vec::new();
        fields.push(copy_field(&self.id));
        fields.push(copy_field(&self.content));
        fields.push(copy_field(&self.metadata));
        fields.push(copy_field(&self.vector));
        fields.push(copy_field(&self.model));
        fields.push(copy_field(&self.created_at));
        fields.push(copy_field(&self.chunk_number));
        proof {
            assert(fields.deep_view() =~= self.spec_fields());
        }
        fields
    }

    /// The table's name.
    pub fn get_table_name(&self) -> (r: &str)
        ensures
            r@ == self.name@,
    {
        self.name.as_str()
    }
}

/// One persisted row: a chunk's text, its origin, its vector, and the
/// model and time that produced it.
#[derive(Debug, Clone)]
pub struct VectorRecord {
    pub id: i32,
    pub content: String,
    pub metadata: String,
    pub vector: Vec<u32>,
    pub model: String,
    pub created_at: i64,
    pub chunk_number: i32,
}

/// The mathematical image of a persisted row.
pub struct VectorRecordView {
    pub id: int,
    pub content: Seq<char>,
    pub metadata: Seq<char>,
    pub vector: Seq<u32>,
    pub model: Seq<char>,
    pub created_at: int,
    pub chunk_number: int,
}

impl View for VectorRecord {
    type V = VectorRecordView;

    open spec fn view(&self) -> VectorRecordView {
        VectorRecordView {
            id: self.id as int,
            content: self.content@,
            metadata: self.metadata@,
            vector: self.vector@,
            model: self.model@,
            created_at: self.created_at as int,
            chunk_number: self.chunk_number as int,
        }
    }
}

impl DeepView for VectorRecord {
    type V = VectorRecordView;

    open spec fn deep_view(&self) -> VectorRecordView {
        self.view()
    }
}

/// A row is well-formed when its vector has exactly the configured
/// number of entries.
pub open spec fn record_wf(r: VectorRecordView, dim: int) -> bool {
    r.vector.len() == dim
}

/// A columnar write batch: the column list it was built against and its
/// rows. A batch is only ever accepted by a table whose schema matches
/// the column list exactly.
pub struct RecordBatch {
    pub fields: Vec<FieldDef>,
    pub rows: Vec<VectorRecord>,
}

impl RecordBatch {
    /// Every row's vector has the dimension the column list fixes.
    pub open spec fn rows_wf(&self, dim: int) -> bool {
        forall|i: int| 0 <= i < self.rows@.len() ==> record_wf(#[trigger] self.rows@[i]@, dim)
    }
}

/// The row a batch holds for input `i`: the shared id, model, metadata,
/// chunk number and creation time, with the i-th input text and the i-th
/// returned vector.
pub open spec fn spec_batch_row(
    id: int,
    content: Seq<char>,
    metadata: Seq<char>,
    vector: Seq<u32>,
    model: Seq<char>,
    created_at: int,
    chunk_number: int,
) -> VectorRecordView {
    VectorRecordView { id, content, metadata, vector, model, created_at, chunk_number }
}

/// The metadata text a batch stores: the request's source path, or the
/// word `Empty` where none was attached.
pub open spec fn spec_batch_metadata(metadata: Option<Seq<char>>) -> Seq<char> {
    match metadata {
        Some(m) => m,
        None => "Empty"@,
    }
}

/// Builds the columnar write batch for one embedding response against the
/// given schema: one row per returned vector, in input order, every row
/// carrying the schema's exact columns.
///
/// The clock is outside the library, so the creation time is an argument;
/// the original request's source path and chunk position are passed
/// alongside the batch request, which carries only model and inputs.
///
/// Fails, writing nothing, when the response has no vectors or a vector
/// of the wrong dimension (`DecodeError`), or more vectors than there
/// were inputs (`SchemaError`).
pub fn create_record_batch(
    id: i32,
    request: &EmbedRequest,
    metadata: &Option<String>,
    chunk_number: &Option<i32>,
    response: &EmbedResponse,
    table_schema: &TableSchema,
    created_at: i64,
) -> (r: Result<RecordBatch, RagError>)
    requires
        table_schema.wf(),
    ensures
        match r {
            Ok(b) => {
                &&& response.embeddings@.len() >= 1
                &&& response.embeddings@.len() <= request.input@.len()
                &&& b.fields.deep_view() == table_schema.spec_fields()
                &&& b.rows@.len() == response.embeddings@.len()
                &&& b.rows_wf(table_schema.spec_dim())
                &&& forall|i: int|
                    0 <= i < b.rows@.len() ==> (#[trigger] b.rows@[i])@ == spec_batch_row(
                        id as int,
                        request.input.deep_view()[i],
                        spec_batch_metadata(
                            match *metadata {
                                Some(ref m) => Some(m@),
                                None => None,
                            },
                        ),
                        response.embeddings@[i]@,
                        request.model@,
                        created_at as int,
                        match *chunk_number {
                            Some(n) => n as int,
                            None => 0,
                        },
                    )
            },
            Err(e) => {
                &&& !({
                    &&& response.embeddings@.len() >= 1
                    &&& response.embeddings@.len() <= request.input@.len()
                    &&& forall|i: int|
                        0 <= i < response.embeddings@.len() ==> (
                        #[trigger] response.embeddings@[i])@.len() == table_schema.spec_dim()
                })
                &&& (e is DecodeError || e is SchemaError)
            },
        },
{
    let len = response.embeddings.len();
    if len == 0 {
        return Err(RagError::DecodeError(table_schema.name.clone()));
    }
    if len > request.input.len() {
        return Err(RagError::SchemaError(table_schema.name.clone()));
    }
    let dim = match table_schema.vector.kind {
        ColumnKind::FixedSizeList { dim } => dim,
        _ => 0,
    };
    let meta_text: String = match metadata {
        Some(m) => m.clone(),
        None => "Empty".to_owned(),
    };
    let chunk: i32 = match chunk_number {
        Some(n) => *n,
        None => 0,
    };
    let mut rows: Vec<VectorRecord> = Vec::new();
    let mut i: usize = 0;
    while i < len
        invariant
            len == response.embeddings@.len(),
            len <= request.input@.len(),
            i <= len,
            dim == table_schema.spec_dim(),
            meta_text@ == spec_batch_metadata(
                match *metadata {
                    Some(ref m) => Some(m@),
                    None => None,
                },
            ),
            chunk as int == (match *chunk_number {
                Some(n) => n as int,
                None => 0,
            }),
            rows@.len() == i,
            forall|j: int| 0 <= j < i ==> record_wf((#[trigger] rows@[j])@, dim as int),
            forall|j: int|
                0 <= j < i ==> (#[trigger] rows@[j])@ == spec_batch_row(
                    id as int,
                    request.input.deep_view()[j],
                    meta_text@,
                    response.embeddings@[j]@,
                    request.model@,
                    created_at as int,
                    chunk as int,
                ),
        decreases len - i,
    {
        let vector = crate::config::copy_vector(&response.embeddings[i]);
        if vector.len() != dim {
            return Err(RagError::DecodeError(table_schema.name.clone()));
        }
        let record = VectorRecord {
            id,
            content: request.input[i].clone(),
            metadata: meta_text.clone(),
            vector,
            model: request.model.clone(),
            created_at,
            chunk_number: chunk,
        };
        rows.push(record);
        i += 1;
    }
    let fields = table_schema.create_schema();
    Ok(RecordBatch { fields, rows })
}

/// The raw 32-bit pattern every entry of a placeholder vector holds: the
/// binary32 encoding of the value one.
pub const PLACEHOLDER_ENTRY: u32 = 0x3F80_0000;

impl TableSchema {
    /// A placeholder batch of 256 default rows against this schema, for
    /// exercising a table: ids 0 through 255, empty texts, vectors filled
    /// with the placeholder entry, and the given creation time. The clock
    /// is outside the library, so the time is an argument.
    pub fn empty_batch(&self, created_at: i64) -> (r: RecordBatch)
        requires
            self.wf(),
        ensures
            r.fields.deep_view() == self.spec_fields(),
            r.rows@.len() == 256,
            r.rows_wf(self.spec_dim()),
            forall|i: int| 0 <= i < 256 ==> (#[trigger] r.rows@[i])@.id == i,
            forall|i: int| 0 <= i < 256 ==> (#[trigger] r.rows@[i])@.content.len() == 0,
            forall|i: int| 0 <= i < 256 ==> (#[trigger] r.rows@[i])@.metadata.len() == 0,
            forall|i: int| 0 <= i < 256 ==> (#[trigger] r.rows@[i])@.model.len() == 0,
            forall|i: int| 0 <= i < 256 ==> (#[trigger] r.rows@[i])@.created_at == created_at,
            forall|i: int| 0 <= i < 256 ==> (#[trigger] r.rows@[i])@.chunk_number == 0,
            forall|i: int, k: int|
                0 <= i < 256 && 0 <= k < self.spec_dim() ==> #[trigger] (r.rows@[i])@.vector[k]
                    == PLACEHOLDER_ENTRY,
    {
        let dim = match self.vector.kind {
            ColumnKind::FixedSizeList { dim } => dim,
            _ => 0,
        };
        let mut vector: Vec<u32> = Vec::new();
        let mut k: usize = 0;
        while k < dim
            invariant
                k <= dim,
                vector@.len() == k,
                forall|m: int| 0 <= m < k ==> vector@[m] == PLACEHOLDER_ENTRY,
            decreases dim - k,
        {
            vector.push(PLACEHOLDER_ENTRY);
            k += 1;
        }
        let mut rows: Vec<VectorRecord> = Vec::new();
        let mut i: usize = 0;
        while i < 256
            invariant
                i <= 256,
                dim == self.spec_dim(),
                vector@.len() == dim,
                rows@.len() == i,
                forall|m: int| 0 <= m < dim ==> vector@[m] == PLACEHOLDER_ENTRY,
                forall|j: int| 0 <= j < i ==> record_wf((#[trigger] rows@[j])@, dim as int),
                forall|j: int| 0 <= j < i ==> (#[trigger] rows@[j])@.id == j,
                forall|j: int| 0 <= j < i ==> (#[trigger] rows@[j])@.content.len() == 0,
                forall|j: int| 0 <= j < i ==> (#[trigger] rows@[j])@.metadata.len() == 0,
                forall|j: int| 0 <= j < i ==> (#[trigger] rows@[j])@.model.len() == 0,
                forall|j: int| 0 <= j < i ==> (#[trigger] rows@[j])@.created_at == created_at,
                forall|j: int| 0 <= j < i ==> (#[trigger] rows@[j])@.chunk_number == 0,
                forall|j: int, m: int|
                    0 <= j < i && 0 <= m < dim ==> #[trigger] (rows@[j])@.vector[m]
                        == PLACEHOLDER_ENTRY,
            decreases 256 - i,
        {
            let record = VectorRecord {
                id: i as i32,
                content: String::new(),
                metadata: String::new(),
                vector: crate::config::copy_vector(&vector),
                model: String::new(),
                created_at,
                chunk_number: 0,
            };
            rows.push(record);
            i += 1;
        }
        RecordBatch { fields: self.create_schema(), rows }
    }
}

} // verus!

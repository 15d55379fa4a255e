//! The vector table model: creation, merge-insert (upsert) keyed on
//! content, lookup, and the index flags.
//!
//! Creation is idempotent and destructive: creating a table of a name that
//! already exists drops it and starts empty — reloading loses the old
//! rows; this is deliberate, not hidden. An insert accepts a batch only
//! when the batch's columns match the table schema exactly, and writes all
//! of the batch or none of it.

use vstd::prelude::*;

use vstd::pervasive::VecAdditionalExecFns;

use crate::config::copy_vector;
use crate::error::RagError;
use crate::schema::{record_wf, RecordBatch, TableSchema, VectorRecord, VectorRecordView};

verus! {

/// The index of the first row whose content equals `key`, or -1.
pub open spec fn find_key(rows: Seq<VectorRecordView>, key: Seq<char>) -> int
    decreases rows.len(),
{
    if rows.len() == 0 {
        -1
    } else if rows[0].content == key {
        0
    } else if find_key(rows.skip(1), key) == -1 {
        -1
    } else {
        find_key(rows.skip(1), key) + 1
    }
}

/// One merge-insert step: a row whose key is present replaces that row in
/// place (all fields); a fresh key is appended.
pub open spec fn upsert_one(
    rows: Seq<VectorRecordView>,
    r: VectorRecordView,
) -> Seq<VectorRecordView> {
    if find_key(rows, r.content) >= 0 {
        rows.update(find_key(rows, r.content), r)
    } else {
        rows.push(r)
    }
}

/// The rows after merge-inserting a whole batch, row by row in batch
/// order.
pub open spec fn spec_upsert(
    rows: Seq<VectorRecordView>,
    batch: Seq<VectorRecordView>,
) -> Seq<VectorRecordView>
    decreases batch.len(),
{
    if batch.len() == 0 {
        rows
    } else {
        spec_upsert(upsert_one(rows, batch[0]), batch.skip(1))
    }
}

/// No two rows share a content key.
pub open spec fn unique_keys(rows: Seq<VectorRecordView>) -> bool {
    forall|i: int, j: int|
        0 <= i < j < rows.len() ==> (#[trigger] rows[i]).content != (#[trigger] rows[j]).content
}

/// Every row's vector has the configured dimension.
pub open spec fn all_rows_wf(rows: Seq<VectorRecordView>, dim: int) -> bool {
    forall|i: int| 0 <= i < rows.len() ==> record_wf(#[trigger] rows[i], dim)
}

proof fn lemma_find_key_bounds(rows: Seq<VectorRecordView>, key: Seq<char>)
    ensures
        -1 <= find_key(rows, key) < rows.len(),
        find_key(rows, key) >= 0 ==> rows[find_key(rows, key)].content == key,
        find_key(rows, key) == -1 ==> forall|i: int|
            0 <= i < rows.len() ==> (#[trigger] rows[i]).content != key,
    decreases rows.len(),
{
    if rows.len() > 0 && rows[0].content != key {
        lemma_find_key_bounds(rows.skip(1), key);
        if find_key(rows, key) == -1 {
            assert forall|i: int| 0 <= i < rows.len() implies (#[trigger] rows[i]).content
                != key by {
                if i > 0 {
                    assert(rows.skip(1)[i - 1] == rows[i]);
                }
            }
        }
    }
}

/// `find_key` returns the first match.
proof fn lemma_find_key_first(rows: Seq<VectorRecordView>, key: Seq<char>, j: int)
    requires
        0 <= j < rows.len(),
        rows[j].content == key,
        forall|m: int| 0 <= m < j ==> (#[trigger] rows[m]).content != key,
    ensures
        find_key(rows, key) == j,
    decreases j,
{
    if j > 0 {
        lemma_find_key_first(rows.skip(1), key, j - 1);
    }
}

proof fn lemma_find_key_none(rows: Seq<VectorRecordView>, key: Seq<char>)
    requires
        forall|m: int| 0 <= m < rows.len() ==> (#[trigger] rows[m]).content != key,
    ensures
        find_key(rows, key) == -1,
    decreases rows.len(),
{
    if rows.len() > 0 {
        lemma_find_key_none(rows.skip(1), key);
    }
}

/// One merge-insert step keeps keys unique and preserves row
/// well-formedness.
proof fn lemma_upsert_one_wf(rows: Seq<VectorRecordView>, r: VectorRecordView, dim: int)
    requires
        unique_keys(rows),
        all_rows_wf(rows, dim),
        record_wf(r, dim),
    ensures
        unique_keys(upsert_one(rows, r)),
        all_rows_wf(upsert_one(rows, r), dim),
        upsert_one(rows, r).len() == if find_key(rows, r.content) >= 0 {
            rows.len() as int
        } else {
            (rows.len() + 1) as int
        },
{
    lemma_find_key_bounds(rows, r.content);
}

/// Merge-inserting a batch keeps keys unique and preserves row
/// well-formedness.
proof fn lemma_upsert_wf(rows: Seq<VectorRecordView>, batch: Seq<VectorRecordView>, dim: int)
    requires
        unique_keys(rows),
        all_rows_wf(rows, dim),
        all_rows_wf(batch, dim),
    ensures
        unique_keys(spec_upsert(rows, batch)),
        all_rows_wf(spec_upsert(rows, batch), dim),
    decreases batch.len(),
{
    if batch.len() > 0 {
        lemma_upsert_one_wf(rows, batch[0], dim);
        assert(all_rows_wf(batch.skip(1), dim));
        lemma_upsert_wf(upsert_one(rows, batch[0]), batch.skip(1), dim);
    }
}

/// Merge-inserting row by row and merge-inserting the batch extended by
/// one row agree.
proof fn lemma_upsert_snoc(
    rows: Seq<VectorRecordView>,
    batch: Seq<VectorRecordView>,
    x: VectorRecordView,
)
    ensures
        spec_upsert(rows, batch.push(x)) == upsert_one(spec_upsert(rows, batch), x),
    decreases batch.len(),
{
    if batch.len() == 0 {
        assert(batch.push(x)[0] == x);
        assert(batch.push(x).skip(1) =~= Seq::<VectorRecordView>::empty());
        assert(spec_upsert(rows, batch) == rows);
        assert(spec_upsert(rows, batch.push(x)) == spec_upsert(
            upsert_one(rows, x),
            batch.push(x).skip(1),
        ));
        assert(spec_upsert(upsert_one(rows, x), batch.push(x).skip(1)) == upsert_one(rows, x));
    } else {
        assert(batch.push(x)[0] == batch[0]);
        assert(batch.push(x).skip(1) =~= batch.skip(1).push(x));
        assert(spec_upsert(rows, batch.push(x)) == spec_upsert(
            upsert_one(rows, batch[0]),
            batch.skip(1).push(x),
        ));
        assert(spec_upsert(rows, batch) == spec_upsert(upsert_one(rows, batch[0]), batch.skip(1)));
        lemma_upsert_snoc(upsert_one(rows, batch[0]), batch.skip(1), x);
    }
}

/// A row already present survives merge-inserts under other keys.
proof fn lemma_upsert_keeps_row(
    rows: Seq<VectorRecordView>,
    batch: Seq<VectorRecordView>,
    k: int,
)
    requires
        0 <= k < rows.len(),
        forall|j: int| 0 <= j < batch.len() ==> (#[trigger] batch[j]).content != rows[k].content,
    ensures
        spec_upsert(rows, batch).len() >= rows.len(),
        spec_upsert(rows, batch)[k] == rows[k],
    decreases batch.len(),
{
    if batch.len() > 0 {
        let rows1 = upsert_one(rows, batch[0]);
        lemma_find_key_bounds(rows, batch[0].content);
        assert(rows1.len() >= rows.len());
        assert(rows1[k] == rows[k]);
        assert(forall|j: int|
            0 <= j < batch.skip(1).len() ==> (#[trigger] batch.skip(1)[j]).content
                != rows1[k].content);
        lemma_upsert_keeps_row(rows1, batch.skip(1), k);
    }
}

/// Round trip: every row of a batch with pairwise distinct keys stands,
/// whole and unchanged, in the table after the merge-insert — in
/// particular, content retrieved by its key equals the content written.
pub proof fn lemma_insert_round_trip(rows: Seq<VectorRecordView>, batch: Seq<VectorRecordView>)
    requires
        unique_keys(batch),
    ensures
        forall|j: int|
            0 <= j < batch.len() ==> spec_upsert(rows, batch).contains(#[trigger] batch[j]),
    decreases batch.len(),
{
    if batch.len() > 0 {
        let rows1 = upsert_one(rows, batch[0]);
        lemma_find_key_bounds(rows, batch[0].content);
        let k = if find_key(rows, batch[0].content) >= 0 {
            find_key(rows, batch[0].content)
        } else {
            rows.len() as int
        };
        assert(rows1[k] == batch[0]);
        assert(forall|j: int|
            0 <= j < batch.skip(1).len() ==> (#[trigger] batch.skip(1)[j]).content
                != batch[0].content);
        lemma_upsert_keeps_row(rows1, batch.skip(1), k);
        assert(spec_upsert(rows, batch)[k] == batch[0]);
        lemma_insert_round_trip(rows1, batch.skip(1));
        assert forall|j: int|
            1 <= j < batch.len() implies spec_upsert(rows1, batch.skip(1)).contains(
            #[trigger] batch[j],
        ) by {
            assert(batch.skip(1)[j - 1] == batch[j]);
        }
    }
}

/// No key of `batch` occurs in `rows`.
pub open spec fn keys_disjoint(
    rows: Seq<VectorRecordView>,
    batch: Seq<VectorRecordView>,
) -> bool {
    forall|i: int, j: int|
        0 <= i < rows.len() && 0 <= j < batch.len() ==> (#[trigger] rows[i]).content != (
        #[trigger] batch[j]).content
}

/// Merge-inserting all-new keys appends the batch as it stands.
proof fn lemma_upsert_all_new(rows: Seq<VectorRecordView>, batch: Seq<VectorRecordView>)
    requires
        unique_keys(batch),
        keys_disjoint(rows, batch),
    ensures
        spec_upsert(rows, batch) == rows + batch,
    decreases batch.len(),
{
    if batch.len() == 0 {
        assert(rows + batch =~= rows);
    } else {
        lemma_find_key_none(rows, batch[0].content);
        assert(upsert_one(rows, batch[0]) == rows.push(batch[0]));
        assert(unique_keys(batch.skip(1)));
        assert(keys_disjoint(rows.push(batch[0]), batch.skip(1)));
        lemma_upsert_all_new(rows.push(batch[0]), batch.skip(1));
        assert(rows.push(batch[0]) + batch.skip(1) =~= rows + batch);
    }
}

/// Ingestion into a freshly created (hence empty) table stores exactly
/// the batch: re-running ingestion over the same inputs after recreating
/// the table yields the same rows and the same row count as a single run
/// — the table is rebuilt, never appended to.
pub proof fn lemma_fresh_ingest(batch: Seq<VectorRecordView>)
    requires
        unique_keys(batch),
    ensures
        spec_upsert(Seq::empty(), batch) == batch,
        spec_upsert(Seq::empty(), batch).len() == batch.len(),
{
    lemma_upsert_all_new(Seq::empty(), batch);
    assert(Seq::empty() + batch =~= batch);
}

/// The tuning values of the partitioned, quantized vector index, as the
/// store builds it.
pub struct IvfHnswParams {
    pub num_partitions: u32,
    pub sample_rate: u32,
    pub max_iterations: u32,
    pub ef_construction: u32,
}

impl IvfHnswParams {
    /// The fixed tuning the store uses for its vector index.
    pub fn default_params() -> (r: IvfHnswParams)
        ensures
            r.num_partitions == 100,
            r.sample_rate == 256,
            r.max_iterations == 50,
            r.ef_construction == 300,
    {
        IvfHnswParams {
            num_partitions: 100,
            sample_rate: 256,
            max_iterations: 50,
            ef_construction: 300,
        }
    }
}

/// The vector table: its schema, its rows, and which indexes exist.
/// Queries work without the indexes (a missing index means a full scan,
/// not a failure).
pub struct VectorStore {
    pub schema: TableSchema,
    pub rows: Vec<VectorRecord>,
    pub vector_indexed: bool,
    pub text_indexed: bool,
}

impl VectorStore {
    /// The rows as their mathematical images, in storage order.
    pub open spec fn rows_view(&self) -> Seq<VectorRecordView> {
        self.rows.deep_view()
    }

    /// A well-formed store: canonical schema, pairwise distinct content
    /// keys, and every vector of the configured dimension.
    pub open spec fn wf(&self) -> bool {
        &&& self.schema.wf()
        &&& unique_keys(self.rows_view())
        &&& all_rows_wf(self.rows_view(), self.schema.spec_dim())
    }

    /// Every stored row's vector length equals the schema's configured
    /// dimension.
    pub proof fn lemma_vectors_have_dimension(&self)
        requires
            self.wf(),
        ensures
            forall|i: int|
                0 <= i < self.rows_view().len() ==> (#[trigger] self.rows_view()[i]).vector.len()
                    == self.schema.spec_dim(),
    {
    }

    /// Creates the table for `schema`: whatever stood under that name
    /// before is dropped, and the table starts empty. Re-creating is
    /// deliberate data loss on reload, not an error.
    pub fn create_table(schema: TableSchema) -> (r: VectorStore)
        requires
            schema.wf(),
        ensures
            r.wf(),
            r.schema == schema,
            r.rows_view().len() == 0,
            !r.vector_indexed,
            !r.text_indexed,
    {
        VectorStore { schema, rows: Vec::new(), vector_indexed: false, text_indexed: false }
    }

    /// The number of stored rows.
    pub fn row_count(&self) -> (r: usize)
        ensures
            r == self.rows_view().len(),
    {
        self.rows.len()
    }

    /// Marks the partitioned, quantized vector index as built over the
    /// vector column. Building an index never changes the rows; its
    /// absence only degrades queries to a full scan.
    pub fn build_vector_index(&mut self, params: &IvfHnswParams)
        ensures
            final(self).rows_view() == old(self).rows_view(),
            final(self).schema == old(self).schema,
            final(self).vector_indexed,
            final(self).text_indexed == old(self).text_indexed,
    {
        self.vector_indexed = true;
    }

    /// Marks the inverted text index as built over the content and
    /// metadata columns, independent of the vector index.
    pub fn build_text_index(&mut self)
        ensures
            final(self).rows_view() == old(self).rows_view(),
            final(self).schema == old(self).schema,
            final(self).text_indexed,
            final(self).vector_indexed == old(self).vector_indexed,
    {
        self.text_indexed = true;
    }

    /// The first row stored under `key`, where one exists.
    fn find_row_index(&self, key: &String) -> (r: Option<usize>)
        ensures
            match r {
                Some(j) => j == find_key(self.rows_view(), key@),
                None => find_key(self.rows_view(), key@) == -1,
            },
    {
        let mut j: usize = 0;
        while j < self.rows.len()
            invariant
                j <= self.rows@.len(),
                forall|m: int|
                    0 <= m < j ==> (#[trigger] self.rows_view()[m]).content != key@,
            decreases self.rows@.len() - j,
        {
            if self.rows[j].content == *key {
                proof {
                    lemma_find_key_first(self.rows_view(), key@, j as int);
                }
                return Some(j);
            }
            j += 1;
        }
        proof {
            lemma_find_key_none(self.rows_view(), key@);
        }
        None
    }

    /// Retrieves the row stored under `content`: the row whose key it is,
    /// exactly when one was written and not since replaced under the same
    /// key.
    pub fn get_by_content(&self, content: &String) -> (r: Option<&VectorRecord>)
        ensures
            match r {
                Some(rec) => {
                    &&& find_key(self.rows_view(), content@) >= 0
                    &&& rec@ == self.rows_view()[find_key(self.rows_view(), content@)]
                    &&& rec@.content == content@
                },
                None => forall|i: int|
                    0 <= i < self.rows_view().len() ==> (#[trigger] self.rows_view()[i]).content
                        != content@,
            },
    {
        proof {
            lemma_find_key_bounds(self.rows_view(), content@);
        }
        match self.find_row_index(content) {
            Some(j) => Some(&self.rows[j]),
            None => None,
        }
    }

    /// Merge-inserts a batch, keyed on content: fresh keys are appended
    /// in batch order, present keys have all fields replaced. A batch
    /// whose columns diverge from the table schema, or with a vector of
    /// the wrong dimension, is rejected whole before any row is written.
    pub fn insert(&mut self, batch: &RecordBatch) -> (r: Result<(), RagError>)
        requires
            old(self).wf(),
        ensures
            final(self).wf(),
            final(self).schema == old(self).schema,
            final(self).vector_indexed == old(self).vector_indexed,
            final(self).text_indexed == old(self).text_indexed,
            match r {
                Ok(()) => {
                    &&& batch.fields.deep_view() == old(self).schema.spec_fields()
                    &&& batch.rows_wf(old(self).schema.spec_dim())
                    &&& final(self).rows_view() == spec_upsert(
                        old(self).rows_view(),
                        batch.rows.deep_view(),
                    )
                },
                Err(e) => {
                    &&& e is SchemaError
                    &&& !(batch.fields.deep_view() == old(self).schema.spec_fields()
                        && batch.rows_wf(old(self).schema.spec_dim()))
                    &&& final(self).rows_view() == old(self).rows_view()
                },
            },
    {
        if !self.batch_matches_schema(batch) {
            return Err(RagError::SchemaError(self.schema.name.clone()));
        }
        let ghost original = self.rows_view();
        let ghost batch_views = batch.rows.deep_view();
        let ghost dim = self.schema.spec_dim();
        let mut i: usize = 0;
        proof {
            assert(batch_views.take(0) =~= Seq::<VectorRecordView>::empty());
            lemma_upsert_wf(original, batch_views.take(0), dim);
        }
        while i < batch.rows.len()
            invariant
                old(self).wf(),
                i <= batch.rows@.len(),
                batch_views == batch.rows.deep_view(),
                original == old(self).rows_view(),
                dim == old(self).schema.spec_dim(),
                self.schema == old(self).schema,
                self.vector_indexed == old(self).vector_indexed,
                self.text_indexed == old(self).text_indexed,
                batch.rows_wf(dim),
                self.rows_view() == spec_upsert(original, batch_views.take(i as int)),
                unique_keys(self.rows_view()),
                all_rows_wf(self.rows_view(), dim),
            decreases batch.rows@.len() - i,
        {
            let ghost before = self.rows_view();
            let record = copy_record(&batch.rows[i]);
            proof {
                assert(record@ == batch_views[i as int]);
                lemma_find_key_bounds(before, record@.content);
                lemma_upsert_one_wf(before, record@, dim);
            }
            match self.find_row_index(&record.content) {
                Some(j) => {
                    self.rows.set(j, record);
                    proof {
                        assert(self.rows_view() =~= before.update(j as int, batch_views[i as int]));
                    }
                },
                None => {
                    self.rows.push(record);
                    proof {
                        assert(self.rows_view() =~= before.push(batch_views[i as int]));
                    }
                },
            }
            proof {
                assert(self.rows_view() == upsert_one(before, batch_views[i as int]));
                assert(batch_views.take(i + 1).drop_last() =~= batch_views.take(i as int));
                assert(batch_views.take(i + 1) =~= batch_views.take(i as int).push(
                    batch_views[i as int],
                ));
                lemma_upsert_snoc(original, batch_views.take(i as int), batch_views[i as int]);
            }
            i += 1;
        }
        proof {
            assert(batch_views.take(batch.rows@.len() as int) =~= batch_views);
        }
        Ok(())
    }

    /// Whether a batch's columns equal the table schema exactly — same
    /// columns, same order, same types — and every row's vector has the
    /// schema's dimension.
    fn batch_matches_schema(&self, batch: &RecordBatch) -> (r: bool)
        requires
            self.schema.wf(),
        ensures
            r == (batch.fields.deep_view() == self.schema.spec_fields() && batch.rows_wf(
                self.schema.spec_dim(),
            )),
    {
        let canonical = self.schema.create_schema();
        if batch.fields.len() != canonical.len() {
            proof {
                assert(batch.fields.deep_view().len() != self.schema.spec_fields().len());
            }
            return false;
        }
        let mut i: usize = 0;
        while i < canonical.len()
            invariant
                canonical.deep_view() == self.schema.spec_fields(),
                batch.fields@.len() == canonical@.len(),
                i <= canonical@.len(),
                forall|j: int|
                    0 <= j < i ==> batch.fields.deep_view()[j] == self.schema.spec_fields()[j],
            decreases canonical@.len() - i,
        {
            let a = &batch.fields[i];
            let b = &canonical[i];
            if !(a.name == b.name) || a.kind != b.kind || a.nullable != b.nullable {
                proof {
                    let fi = i as int;
                    assert(batch.fields.deep_view()[fi] != self.schema.spec_fields()[fi]);
                }
                return false;
            }
            i += 1;
        }
        proof {
            assert(batch.fields.deep_view() =~= self.schema.spec_fields());
        }
        let dim_usize: usize = match self.schema.vector.kind {
            crate::schema::ColumnKind::FixedSizeList { dim } => dim,
            _ => 0,
        };
        let mut k: usize = 0;
        while k < batch.rows.len()
            invariant
                dim_usize as int == self.schema.spec_dim(),
                k <= batch.rows@.len(),
                forall|j: int|
                    0 <= j < k ==> record_wf(
                        (#[trigger] batch.rows@[j])@,
                        self.schema.spec_dim(),
                    ),
            decreases batch.rows@.len() - k,
        {
            if batch.rows[k].vector.len() != dim_usize {
                proof {
                    assert(!record_wf(batch.rows@[k as int]@, self.schema.spec_dim()));
                }
                return false;
            }
            k += 1;
        }
        true
    }
}

/// A field-for-field copy of one row.
pub fn copy_record(src: &VectorRecord) -> (r: VectorRecord)
    ensures
        r@ == src@,
{
    VectorRecord {
        id: src.id,
        content: src.content.clone(),
        metadata: src.metadata.clone(),
        vector: copy_vector(&src.vector),
        model: src.model.clone(),
        created_at: src.created_at,
        chunk_number: src.chunk_number,
    }
}

} // verus!

//! The agents that carry provider coordinates through the pipeline, and
//! the ingestion run: chunk by chunk, an embedding request goes out, the
//! response is checked, and one row per returned vector is accumulated
//! for the table.
//!
//! The network call itself stays outside the library. The run hands out
//! the next request, judges every outcome, and fails hard on the first
//! provider error or undecodable response: a failed run accumulates no
//! further rows, so no further inserts can come from it.

use vstd::prelude::*;

use crate::chunker::{ChunkEmbedRequest, FileChunk, FileChunkView};
use crate::config::EmbedRequest;
use crate::config::EmbedResponse;
use crate::error::RagError;
use crate::provider::{EmbeddingProvider, ModelAPIProvider};
use crate::schema::{
    create_record_batch, spec_batch_row, RecordBatch, TableSchema, VectorRecord, VectorRecordView,
};
use crate::table::copy_record;

verus! {

/// An agent that generates text: provider coordinates and the model to
/// call. The HTTP client that carries its requests lives with the
/// caller.
pub struct LLMAgent {
    pub llm_provider: ModelAPIProvider,
    pub model: String,
}

impl LLMAgent {
    /// An agent from its coordinates and model.
    pub fn new(llm_provider: ModelAPIProvider, model: String) -> (r: LLMAgent)
        ensures
            r.llm_provider.provider@ == llm_provider.provider@,
            r.llm_provider.api_url@ == llm_provider.api_url@,
            r.llm_provider.api_key@ == llm_provider.api_key@,
            r.model@ == model@,
    {
        LLMAgent { llm_provider, model }
    }
}

/// An agent that computes embeddings: an embedding provider. The HTTP
/// client lives with the caller.
pub struct EmbedAgent {
    pub embedding_provider: EmbeddingProvider,
}

impl EmbedAgent {
    /// An agent from its embedding provider.
    pub fn new(embedding_provider: EmbeddingProvider) -> (r: EmbedAgent)
        ensures
            r.embedding_provider.model@ == embedding_provider.model@,
            r.embedding_provider.llm_provider.provider@
                == embedding_provider.llm_provider.provider@,
            r.embedding_provider.llm_provider.api_url@
                == embedding_provider.llm_provider.api_url@,
            r.embedding_provider.llm_provider.api_key@
                == embedding_provider.llm_provider.api_key@,
    {
        EmbedAgent { embedding_provider }
    }
}

/// The retrieval-and-chat agent: an embedding agent for the store side
/// and a generation agent for the conversation side.
pub struct RagAgent {
    pub embed_agent: EmbedAgent,
    pub ai_model: LLMAgent,
}

impl RagAgent {
    /// An agent from its two halves, their provider coordinates carried
    /// unchanged.
    pub fn new(embed_agent: EmbedAgent, ai_model: LLMAgent) -> (r: RagAgent)
        ensures
            r.embed_agent.embedding_provider.model@
                == embed_agent.embedding_provider.model@,
            r.embed_agent.embedding_provider.llm_provider.provider@
                == embed_agent.embedding_provider.llm_provider.provider@,
            r.embed_agent.embedding_provider.llm_provider.api_url@
                == embed_agent.embedding_provider.llm_provider.api_url@,
            r.embed_agent.embedding_provider.llm_provider.api_key@
                == embed_agent.embedding_provider.llm_provider.api_key@,
            r.ai_model.model@ == ai_model.model@,
            r.ai_model.llm_provider.provider@ == ai_model.llm_provider.provider@,
            r.ai_model.llm_provider.api_url@ == ai_model.llm_provider.api_url@,
            r.ai_model.llm_provider.api_key@ == ai_model.llm_provider.api_key@,
    {
        RagAgent { embed_agent, ai_model }
    }
}

/// Where a persisted embedding set lives: a database URI and a table
/// name.
pub struct EmbeddingStore {
    pub db: String,
    pub table: String,
}

impl EmbeddingStore {
    /// A store location from its database URI and table name.
    pub fn new(db: &str, table: &str) -> (r: EmbeddingStore)
        ensures
            r.db@ == db@,
            r.table@ == table@,
    {
        EmbeddingStore { db: db.to_owned(), table: table.to_owned() }
    }
}

/// Where an ingestion run stands.
#[derive(Debug, Clone, Copy, PartialEq, Eq, Structural)]
pub enum IngestPhase {
    /// A request for the next chunk is out or ready to go out.
    Embedding,
    /// Every chunk has its row; the rows are ready for the table.
    Done,
    /// A provider error or an undecodable response ended the run; no
    /// further rows accumulate.
    Failed,
}

/// The mathematical image of an ingestion run.
pub struct IngestRunView {
    pub phase: IngestPhase,
    pub chunks: Seq<FileChunkView>,
    pub model: Seq<char>,
    pub next: int,
    pub records: Seq<VectorRecordView>,
}

/// One ingestion run over a fixed chunk list: per-file chunk order is
/// fixed up front (each chunk carries its number), so the final row
/// order does not depend on when responses arrive.
pub struct IngestRun {
    chunks: Vec<FileChunk>,
    model: String,
    next: usize,
    records: Vec<VectorRecord>,
    phase: IngestPhase,
}

impl View for IngestRun {
    type V = IngestRunView;

    closed spec fn view(&self) -> IngestRunView {
        IngestRunView {
            phase: self.phase,
            chunks: self.chunks.deep_view(),
            model: self.model@,
            next: self.next as int,
            records: self.records.deep_view(),
        }
    }
}

impl IngestRun {
    /// A run accumulates exactly one row per finished chunk, in chunk
    /// order.
    pub open spec fn inv(&self) -> bool {
        &&& self@.chunks.len() <= 0x7FFF_FFFF
        &&& (forall|i: int|
            0 <= i < self@.chunks.len() ==> (#[trigger] self@.chunks[i]).chunk_number
                <= 0x7FFF_FFFF)
        &&& 0 <= self@.next <= self@.chunks.len()
        &&& self@.records.len() == self@.next
        &&& (self@.phase == IngestPhase::Done ==> self@.next == self@.chunks.len())
        &&& (self@.phase == IngestPhase::Embedding ==> self@.next < self@.chunks.len())
    }

    /// Starts a run over the chunks of an ingestion, for one embedding
    /// model. A run over no chunks is immediately done.
    pub fn start(chunks: Vec<FileChunk>, model: String) -> (r: IngestRun)
        requires
            chunks@.len() <= 0x7FFF_FFFF,
            forall|i: int|
                0 <= i < chunks@.len() ==> (#[trigger] chunks@[i])@.chunk_number <= 0x7FFF_FFFF,
        ensures
            r.inv(),
            r@.chunks == chunks.deep_view(),
            r@.model == model@,
            r@.next == 0,
            r@.records.len() == 0,
            r@.phase == (if chunks@.len() == 0 {
                IngestPhase::Done
            } else {
                IngestPhase::Embedding
            }),
    {
        let phase = if chunks.len() == 0 {
            IngestPhase::Done
        } else {
            IngestPhase::Embedding
        };
        IngestRun { chunks, model, next: 0, records: Vec::new(), phase }
    }

    /// Where the run stands.
    pub fn phase(&self) -> (r: IngestPhase)
        ensures
            r == self@.phase,
    {
        self.phase
    }

    /// How many rows have accumulated.
    pub fn record_count(&self) -> (r: usize)
        ensures
            r == self@.records.len(),
    {
        self.records.len()
    }

    /// The embedding request for the next chunk: the chunk's text as the
    /// input, its file as the metadata, its number as the chunk number.
    /// There is one exactly while the run is embedding.
    pub fn current_request(&self, provider: &str, api_url: &str, api_key: &str) -> (r: Option<
        ChunkEmbedRequest,
    >)
        requires
            self.inv(),
        ensures
            match r {
                Some(req) => {
                    &&& self@.phase == IngestPhase::Embedding
                    &&& req.model@ == self@.model
                    &&& req.provider@ == provider@
                    &&& req.api_url@ == api_url@
                    &&& req.api_key@ == api_key@
                    &&& req.input@ == self@.chunks[self@.next].content
                    &&& req.metadata matches Some(m) && m@ == self@.chunks[self@.next].file_path
                    &&& req.chunk_number == Some(
                        self@.chunks[self@.next].chunk_number as usize,
                    )
                },
                None => self@.phase != IngestPhase::Embedding,
            },
    {
        if !matches!(self.phase, IngestPhase::Embedding) {
            return None;
        }
        let chunk = &self.chunks[self.next];
        proof {
            assert(self@.chunks[self@.next] == chunk@);
        }
        Some(
            crate::chunker::chunk_embed_request(
                chunk,
                provider,
                api_url,
                api_key,
                self.model.as_str(),
            ),
        )
    }

    /// Judges the outcome of the next chunk's embedding call and, on
    /// success, accumulates that chunk's row.
    ///
    /// A non-success status fails the run with a provider error naming
    /// the URL, and no row is added — a failed run takes no further
    /// responses, so no insert follows a provider failure. A missing
    /// (undecodable) body is a decode error; so is a response without
    /// exactly one vector of the schema's dimension for the one input.
    /// A success status with exactly one vector of the right dimension
    /// is owed acceptance.
    pub fn on_response(
        &mut self,
        status: u16,
        url: &String,
        response: Option<EmbedResponse>,
        schema: &TableSchema,
        created_at: i64,
    ) -> (r: Result<(), RagError>)
        requires
            old(self).inv(),
            old(self)@.phase == IngestPhase::Embedding,
            schema.wf(),
        ensures
            final(self).inv(),
            final(self)@.chunks == old(self)@.chunks,
            final(self)@.model == old(self)@.model,
            !(200 <= status < 300) ==> {
                &&& r matches Err(e) && e is ProviderError && e.provider_status() == status
                    && e.spec_detail() == url@
                &&& final(self)@.phase == IngestPhase::Failed
                &&& final(self)@.records == old(self)@.records
            },
            (200 <= status < 300 && response is None) ==> {
                &&& r matches Err(e) && e is DecodeError
                &&& final(self)@.phase == IngestPhase::Failed
                &&& final(self)@.records == old(self)@.records
            },
            r matches Ok(()) ==> {
                &&& 200 <= status < 300
                &&& response matches Some(resp) && resp.embeddings@.len() == 1
                    && final(self)@.records == old(self)@.records.push(
                    spec_batch_row(
                        old(self)@.next,
                        old(self)@.chunks[old(self)@.next].content,
                        old(self)@.chunks[old(self)@.next].file_path,
                        resp.embeddings@[0]@,
                        old(self)@.model,
                        created_at as int,
                        old(self)@.chunks[old(self)@.next].chunk_number,
                    ),
                )
                &&& final(self)@.next == old(self)@.next + 1
                &&& final(self)@.phase == (if old(self)@.next + 1 == old(self)@.chunks.len() {
                    IngestPhase::Done
                } else {
                    IngestPhase::Embedding
                })
            },
            r matches Err(_) ==> final(self)@.phase == IngestPhase::Failed
                && final(self)@.records == old(self)@.records,
            (200 <= status < 300 && (response matches Some(resp) && resp.embeddings@.len() == 1
                && resp.embeddings@[0]@.len() == schema.spec_dim())) ==> r is Ok,
    {
        if !(200 <= status && status < 300) {
            self.phase = IngestPhase::Failed;
            return Err(RagError::ProviderError(status, url.clone()));
        }
        let resp = match response {
            Some(resp) => resp,
            None => {
                self.phase = IngestPhase::Failed;
                return Err(RagError::DecodeError(url.clone()));
            },
        };
        let chunk = &self.chunks[self.next];
        proof {
            assert(self@.chunks[self@.next] == chunk@);
        }
        let mut input: Vec<String> = Vec::new();
        input.push(chunk.content.clone());
        let request = EmbedRequest { model: self.model.clone(), input };
        let metadata: Option<String> = Some(chunk.file_path.clone());
        let id: i32 = self.next as i32;
        let chunk_number: Option<i32> = Some(chunk.chunk_number as i32);
        proof {
            assert(request.input.deep_view() =~= seq![self@.chunks[self@.next].content]);
        }
        let batch = match create_record_batch(
            id,
            &request,
            &metadata,
            &chunk_number,
            &resp,
            schema,
            created_at,
        ) {
            Ok(batch) => batch,
            Err(e) => {
                self.phase = IngestPhase::Failed;
                return Err(e);
            },
        };
        let ghost before = self.records.deep_view();
        let row = copy_record(&batch.rows[0]);
        self.records.push(row);
        proof {
            assert(self.records.deep_view() =~= before.push(batch.rows@[0]@));
        }
        self.next = self.next + 1;
        if self.next == self.chunks.len() {
            self.phase = IngestPhase::Done;
        } else {
            self.phase = IngestPhase::Embedding;
        }
        Ok(())
    }

    /// The accumulated rows as a write batch against the given schema,
    /// ready for the table's merge-insert.
    pub fn build_batch(&self, schema: &TableSchema) -> (r: RecordBatch)
        requires
            schema.wf(),
        ensures
            r.fields.deep_view() == schema.spec_fields(),
            r.rows.deep_view() == self@.records,
    {
        let mut rows: Vec<VectorRecord> = Vec::new();
        let mut i: usize = 0;
        while i < self.records.len()
            invariant
                i <= self.records@.len(),
                rows.deep_view() =~= self.records.deep_view().take(i as int),
            decreases self.records@.len() - i,
        {
            let ghost prev = rows.deep_view();
            rows.push(copy_record(&self.records[i]));
            proof {
                assert(rows.deep_view() =~= prev.push(self.records@[i as int]@));
                assert(rows.deep_view() =~= self.records.deep_view().take(i + 1));
            }
            i += 1;
        }
        proof {
            assert(self.records.deep_view().take(self.records@.len() as int)
                =~= self.records.deep_view());
        }
        RecordBatch { fields: schema.create_schema(), rows }
    }
}

} // verus!

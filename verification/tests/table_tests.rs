use rag_agent::config::{EmbedRequest, EmbedResponse};
use rag_agent::error::RagError;
use rag_agent::schema::{create_record_batch, RecordBatch, TableSchema, VectorRecord};
use rag_agent::table::VectorStore;

fn schema() -> TableSchema {
    TableSchema::new(&"sample_table".to_string())
}

fn record(id: i32, content: &str, metadata: &str) -> VectorRecord {
    VectorRecord {
        id,
        content: content.to_string(),
        metadata: metadata.to_string(),
        vector: vec![0u32; 768],
        model: "nomic-embed-text".to_string(),
        created_at: 1_700_000_000,
        chunk_number: 0,
    }
}

fn batch_of(rows: Vec<VectorRecord>) -> RecordBatch {
    RecordBatch {
        fields: schema().create_schema(),
        rows,
    }
}

#[test]
fn persisted_vectors_have_configured_dimension() {
    let req = EmbedRequest {
        model: "nomic-embed-text".to_string(),
        input: vec!["warm air rises".to_string()],
    };
    let resp = EmbedResponse {
        model: "nomic-embed-text".to_string(),
        embeddings: vec![vec![7u32; 768]],
    };
    let batch = create_record_batch(
        3,
        &req,
        &Some("notes.txt".to_string()),
        &Some(0),
        &resp,
        &schema(),
        1_700_000_000,
    )
    .unwrap();
    assert_eq!(batch.rows.len(), 1);
    for row in &batch.rows {
        assert_eq!(row.vector.len(), 768);
    }
    assert_eq!(batch.rows[0].content, "warm air rises");
    assert_eq!(batch.rows[0].metadata, "notes.txt");
}

#[test]
fn wrong_dimension_is_a_decode_error() {
    let req = EmbedRequest {
        model: "m".to_string(),
        input: vec!["text".to_string()],
    };
    let resp = EmbedResponse {
        model: "m".to_string(),
        embeddings: vec![vec![7u32; 12]],
    };
    let r = create_record_batch(0, &req, &None, &None, &resp, &schema(), 0);
    assert!(matches!(r, Err(RagError::DecodeError(_))));
}

#[test]
fn empty_response_is_a_decode_error() {
    let req = EmbedRequest {
        model: "m".to_string(),
        input: vec!["text".to_string()],
    };
    let resp = EmbedResponse {
        model: "m".to_string(),
        embeddings: vec![],
    };
    let r = create_record_batch(0, &req, &None, &None, &resp, &schema(), 0);
    assert!(matches!(r, Err(RagError::DecodeError(_))));
}

#[test]
fn insert_then_get_returns_original_content() {
    let mut store = VectorStore::create_table(schema());
    let batch = batch_of(vec![
        record(0, "the cat is purring", "a.txt"),
        record(1, "the dog is barking", "b.txt"),
    ]);
    store.insert(&batch).unwrap();
    let found = store
        .get_by_content(&"the cat is purring".to_string())
        .unwrap();
    assert_eq!(found.content, "the cat is purring");
    assert_eq!(found.metadata, "a.txt");
    assert!(store.get_by_content(&"absent".to_string()).is_none());
}

#[test]
fn upsert_replaces_all_fields_under_same_key() {
    let mut store = VectorStore::create_table(schema());
    store
        .insert(&batch_of(vec![record(0, "same key", "old.txt")]))
        .unwrap();
    let mut replacement = record(9, "same key", "new.txt");
    replacement.model = "another-model".to_string();
    store.insert(&batch_of(vec![replacement])).unwrap();
    assert_eq!(store.row_count(), 1);
    let found = store.get_by_content(&"same key".to_string()).unwrap();
    assert_eq!(found.metadata, "new.txt");
    assert_eq!(found.model, "another-model");
    assert_eq!(found.id, 9);
}

#[test]
fn mismatched_batch_is_rejected_whole() {
    let mut store = VectorStore::create_table(schema());
    store
        .insert(&batch_of(vec![record(0, "kept", "a.txt")]))
        .unwrap();
    // a batch whose column list lacks the final column
    let mut fields = schema().create_schema();
    fields.pop();
    let bad = RecordBatch {
        fields,
        rows: vec![record(1, "never written", "b.txt")],
    };
    let r = store.insert(&bad);
    assert!(matches!(r, Err(RagError::SchemaError(_))));
    assert_eq!(store.row_count(), 1);
    assert!(store.get_by_content(&"never written".to_string()).is_none());

    // a batch with a row of the wrong vector dimension
    let mut short = record(2, "also never written", "c.txt");
    short.vector = vec![0u32; 3];
    let r2 = store.insert(&batch_of(vec![short]));
    assert!(matches!(r2, Err(RagError::SchemaError(_))));
    assert_eq!(store.row_count(), 1);
}

#[test]
fn recreating_the_table_drops_all_rows() {
    let mut store = VectorStore::create_table(schema());
    store
        .insert(&batch_of(vec![
            record(0, "first", "a.txt"),
            record(1, "second", "b.txt"),
        ]))
        .unwrap();
    assert_eq!(store.row_count(), 2);
    let store = VectorStore::create_table(schema());
    assert_eq!(store.row_count(), 0);
}

#[test]
fn index_building_changes_no_rows() {
    let mut store = VectorStore::create_table(schema());
    store
        .insert(&batch_of(vec![record(0, "row", "a.txt")]))
        .unwrap();
    let params = rag_agent::table::IvfHnswParams::default_params();
    assert_eq!(params.num_partitions, 100);
    assert_eq!(params.sample_rate, 256);
    assert_eq!(params.max_iterations, 50);
    assert_eq!(params.ef_construction, 300);
    store.build_vector_index(&params);
    store.build_text_index();
    assert_eq!(store.row_count(), 1);
    assert!(store.get_by_content(&"row".to_string()).is_some());
}

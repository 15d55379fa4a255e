use rag_agent::chunker::{chunk_file, chunk_files, SourceFile};
use rag_agent::config::EmbedResponse;
use rag_agent::error::RagError;
use rag_agent::pipeline::{IngestPhase, IngestRun};
use rag_agent::schema::TableSchema;
use rag_agent::table::VectorStore;

fn sample_files() -> Vec<SourceFile> {
    vec![
        SourceFile::new(
            "sample/weather.py".to_string(),
            "temperature is a measure of heat\npressure falls before rain\n".to_string(),
        ),
        SourceFile::new(
            "sample/animals.py".to_string(),
            "# the cat is purring\n# the dog is barking\n# the bear is growling\n".to_string(),
        ),
        SourceFile::new(
            "sample/main.rs".to_string(),
            "fn main() {\n    println!(\"hello\");\n}\n".to_string(),
        ),
    ]
}

fn run_ingestion(run: &mut IngestRun, schema: &TableSchema) {
    while run.phase() == IngestPhase::Embedding {
        let request = run
            .current_request("ollama", "http://10.0.0.213:11434", "api_key")
            .unwrap();
        // every chunk's vector comes back with the configured dimension;
        // the entry value is derived from the input so vectors differ
        let entry = request.input.len() as u32;
        let response = EmbedResponse {
            model: "nomic-embed-text".to_string(),
            embeddings: vec![vec![entry; 768]],
        };
        run.on_response(
            200,
            &"http://10.0.0.213:11434/api/embed".to_string(),
            Some(response),
            schema,
            1_700_000_000,
        )
        .unwrap();
    }
    assert_eq!(run.phase(), IngestPhase::Done);
}

#[test]
fn ingested_row_count_is_the_sum_of_per_file_chunk_counts() {
    // scenario: a directory of three files, chunked at 1024
    let files = sample_files();
    let max_chunk_size = 1024;
    let mut expected = 0;
    for f in &files {
        expected += chunk_file(&f.path, &f.content, max_chunk_size).len();
    }
    let chunks = chunk_files(&files, max_chunk_size);
    assert_eq!(chunks.len(), expected);

    let schema = TableSchema::new(&"sample_table".to_string());
    let mut run = IngestRun::start(chunks, "nomic-embed-text".to_string());
    run_ingestion(&mut run, &schema);
    assert_eq!(run.record_count(), expected);

    let mut store = VectorStore::create_table(TableSchema::new(&"sample_table".to_string()));
    store.insert(&run.build_batch(&schema)).unwrap();
    assert_eq!(store.row_count(), expected);
}

#[test]
fn provider_failure_aborts_ingestion_with_the_url() {
    // scenario: the embedding provider answers 500 during ingestion
    let files = sample_files();
    let chunks = chunk_files(&files, 1024);
    assert!(chunks.len() >= 2);
    let schema = TableSchema::new(&"sample_table".to_string());
    let mut run = IngestRun::start(chunks, "nomic-embed-text".to_string());
    let url = "http://10.0.0.213:11434/api/embed".to_string();

    // the first chunk embeds fine
    let response = EmbedResponse {
        model: "nomic-embed-text".to_string(),
        embeddings: vec![vec![1u32; 768]],
    };
    run.on_response(200, &url, Some(response), &schema, 1_700_000_000)
        .unwrap();
    assert_eq!(run.record_count(), 1);

    // the provider fails on the second
    let r = run.on_response(500, &url, None, &schema, 1_700_000_000);
    match r {
        Err(RagError::ProviderError(status, at)) => {
            assert_eq!(status, 500);
            assert_eq!(at, url);
        }
        other => panic!("expected a provider error, got {:?}", other),
    }
    // the run failed: no row was added and no further request goes out,
    // so no insert follows for this batch
    assert_eq!(run.phase(), IngestPhase::Failed);
    assert_eq!(run.record_count(), 1);
    assert!(run
        .current_request("ollama", "http://10.0.0.213:11434", "api_key")
        .is_none());
}

#[test]
fn undecodable_embedding_body_is_a_decode_error() {
    let chunks = chunk_files(&sample_files(), 1024);
    let schema = TableSchema::new(&"sample_table".to_string());
    let mut run = IngestRun::start(chunks, "nomic-embed-text".to_string());
    let url = "http://10.0.0.213:11434/api/embed".to_string();
    let r = run.on_response(200, &url, None, &schema, 1_700_000_000);
    assert!(matches!(r, Err(RagError::DecodeError(_))));
    assert_eq!(run.phase(), IngestPhase::Failed);
    assert_eq!(run.record_count(), 0);
}

#[test]
fn reingesting_after_recreation_yields_the_same_row_count() {
    // scenario: running the ingestion twice over the same directory with
    // create-table semantics: the table is dropped and rebuilt, not
    // appended to
    let schema = TableSchema::new(&"sample_table".to_string());
    let mut counts: Vec<usize> = Vec::new();
    for _ in 0..2 {
        let chunks = chunk_files(&sample_files(), 1024);
        let mut run = IngestRun::start(chunks, "nomic-embed-text".to_string());
        run_ingestion(&mut run, &schema);
        let mut store = VectorStore::create_table(TableSchema::new(&"sample_table".to_string()));
        store.insert(&run.build_batch(&schema)).unwrap();
        counts.push(store.row_count());
    }
    assert_eq!(counts[0], counts[1]);
}

use rag_agent::query::{
    build_query_inputs, extract_contents, fetch_file_context, file_context_keys, merge_results,
    top_k, ScoredRow,
};
use rag_agent::schema::{TableSchema, VectorRecord};
use rag_agent::table::VectorStore;

fn row(id: i32, distance: f32, content: &str, metadata: &str, chunk_number: i32) -> ScoredRow {
    ScoredRow {
        id,
        distance: distance.to_bits() as u64,
        content: content.to_string(),
        metadata: metadata.to_string(),
        chunk_number,
    }
}

#[test]
fn whole_query_embeds_one_joined_text() {
    let input = vec![
        "what".to_string(),
        "is".to_string(),
        "temperature".to_string(),
    ];
    let joined = build_query_inputs(&input, true);
    assert_eq!(joined, vec!["what is temperature".to_string()]);
    let per_term = build_query_inputs(&input, false);
    assert_eq!(per_term, input);
}

#[test]
fn results_come_back_in_non_decreasing_distance_order() {
    let lists = vec![vec![
        row(1, 0.9, "far", "a.txt", 0),
        row(2, 0.1, "near", "a.txt", 1),
        row(3, 0.5, "middle", "b.txt", 0),
    ]];
    let merged = merge_results(&lists);
    assert_eq!(merged.len(), 3);
    for w in merged.windows(2) {
        assert!(w[0].distance <= w[1].distance);
    }
    assert_eq!(merged[0].content, "near");
    assert_eq!(merged[1].content, "middle");
    assert_eq!(merged[2].content, "far");
}

#[test]
fn union_deduplicates_by_id_keeping_best_distance() {
    let lists = vec![
        vec![row(1, 0.7, "one", "a.txt", 0), row(2, 0.4, "two", "a.txt", 1)],
        vec![row(1, 0.2, "one", "a.txt", 0), row(3, 0.9, "three", "b.txt", 0)],
    ];
    let merged = merge_results(&lists);
    assert_eq!(merged.len(), 3);
    let ids: Vec<i32> = merged.iter().map(|r| r.id).collect();
    assert_eq!(ids, vec![1, 2, 3]);
    assert_eq!(merged[0].distance, (0.2f32).to_bits() as u64);
}

#[test]
fn top_k_takes_the_closest_k() {
    let lists = vec![vec![
        row(1, 0.9, "far", "a.txt", 0),
        row(2, 0.1, "near", "a.txt", 1),
        row(3, 0.5, "middle", "b.txt", 0),
    ]];
    let merged = merge_results(&lists);
    let best = top_k(&merged, 2);
    assert_eq!(best.len(), 2);
    assert_eq!(best[0].content, "near");
    assert_eq!(best[1].content, "middle");
    let all = top_k(&merged, 10);
    assert_eq!(all.len(), 3);
}

#[test]
fn whole_query_scenario_returns_top_k_by_ascending_distance() {
    // querying in whole-query mode for one combined text; the store's
    // per-row distances come back from the one search
    let input = vec!["temperature".to_string()];
    let embeds = build_query_inputs(&input, true);
    assert_eq!(embeds.len(), 1);
    let hits = vec![vec![
        row(10, 0.81, "pressure falls", "w.md", 2),
        row(11, 0.09, "temperature rises", "w.md", 0),
        row(12, 0.25, "warm air", "w.md", 1),
        row(13, 0.64, "humidity", "v.md", 0),
    ]];
    let merged = merge_results(&hits);
    let k = 3;
    let best = top_k(&merged, k);
    assert_eq!(best.len(), k);
    assert_eq!(best[0].content, "temperature rises");
    assert_eq!(best[1].content, "warm air");
    assert_eq!(best[2].content, "humidity");
    for w in best.windows(2) {
        assert!(w[0].distance <= w[1].distance);
    }
    let contents = extract_contents(&best);
    assert_eq!(
        contents,
        vec![
            "temperature rises".to_string(),
            "warm air".to_string(),
            "humidity".to_string()
        ]
    );
}

#[test]
fn ties_keep_first_seen_order() {
    let lists = vec![vec![
        row(5, 0.5, "first of the tie", "a.txt", 0),
        row(6, 0.5, "second of the tie", "a.txt", 1),
        row(7, 0.1, "closest", "a.txt", 2),
    ]];
    let merged = merge_results(&lists);
    assert_eq!(merged[0].content, "closest");
    assert_eq!(merged[1].content, "first of the tie");
    assert_eq!(merged[2].content, "second of the tie");
}

#[test]
fn file_context_widens_to_adjacent_chunks() {
    let rows = vec![row(1, 0.1, "hit", "doc.md", 3), row(2, 0.2, "first chunk", "doc.md", 0)];
    let keys = file_context_keys(&rows);
    assert_eq!(keys.len(), 3);
    assert_eq!(keys[0].file_path, "doc.md");
    assert_eq!(keys[0].chunk_number, 2);
    assert_eq!(keys[1].chunk_number, 4);
    // the first chunk of a file has no predecessor
    assert_eq!(keys[2].chunk_number, 1);
}

fn stored_row(id: i32, content: &str, metadata: &str, chunk_number: i32) -> VectorRecord {
    VectorRecord {
        id,
        content: content.to_string(),
        metadata: metadata.to_string(),
        vector: vec![0u32; 768],
        model: "m".to_string(),
        created_at: 0,
        chunk_number,
    }
}

#[test]
fn file_context_is_fetched_from_the_store() {
    let mut store = VectorStore::create_table(TableSchema::new(&"t".to_string()));
    let batch = rag_agent::schema::RecordBatch {
        fields: TableSchema::new(&"t".to_string()).create_schema(),
        rows: vec![
            stored_row(0, "first chunk", "doc.md", 0),
            stored_row(1, "second chunk", "doc.md", 1),
            stored_row(2, "third chunk", "doc.md", 2),
            stored_row(3, "other file", "other.md", 1),
        ],
    };
    store.insert(&batch).unwrap();

    // a hit on the middle chunk widens to its two neighbors, same file
    let hit = vec![row(1, 0.1, "second chunk", "doc.md", 1)];
    let keys = file_context_keys(&hit);
    let widened = fetch_file_context(&store, &keys);
    assert_eq!(
        widened,
        vec!["first chunk".to_string(), "third chunk".to_string()]
    );
}

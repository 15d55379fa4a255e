use rag_agent::chunker::{chunk_file, chunk_files, split_content, SourceFile};

#[test]
fn chunk_length_never_exceeds_bound() {
    let content = "alpha\nbeta\ngamma\ndelta epsilon zeta eta theta";
    for max in 1..20usize {
        let chunks = split_content(content, max);
        for c in &chunks {
            assert!(c.chars().count() <= max);
        }
    }
}

#[test]
fn chunking_is_deterministic() {
    let content = "one\ntwo\nthree\nfour five six seven\neight";
    let a = split_content(content, 9);
    let b = split_content(content, 9);
    assert_eq!(a, b);
}

#[test]
fn chunking_prefers_line_boundaries() {
    // the bound falls mid-word, but a line break lies inside it
    let chunks = split_content("ab\ncdefg", 5);
    assert_eq!(chunks, vec!["ab\n".to_string(), "cdefg".to_string()]);
}

#[test]
fn chunking_splits_mid_line_only_without_breaks() {
    let chunks = split_content("abcdefghij", 4);
    assert_eq!(
        chunks,
        vec!["abcd".to_string(), "efgh".to_string(), "ij".to_string()]
    );
}

#[test]
fn chunking_cuts_after_last_break_within_bound() {
    let chunks = split_content("line 1\nline 2\nline 3", 7);
    assert_eq!(
        chunks,
        vec![
            "line 1\n".to_string(),
            "line 2\n".to_string(),
            "line 3".to_string()
        ]
    );
}

#[test]
fn chunks_concatenate_to_original() {
    let content = "x\nyy\nzzz\nwwww";
    for max in 1..10usize {
        let chunks = split_content(content, max);
        let joined: String = chunks.concat();
        assert_eq!(joined, content);
    }
}

#[test]
fn empty_file_yields_no_chunks() {
    let chunks = split_content("", 1024);
    assert!(chunks.is_empty());
}

#[test]
fn chunk_file_numbers_chunks_from_zero() {
    let chunks = chunk_file("src/sample.rs", "a\nb\nc", 2);
    assert_eq!(chunks.len(), 3);
    for (i, c) in chunks.iter().enumerate() {
        assert_eq!(c.get_chunk_number(), i);
        assert_eq!(c.get_file_path(), &"src/sample.rs".to_string());
    }
}

#[test]
fn unrecognized_files_are_skipped_silently() {
    let files = vec![
        SourceFile::new("a.rs".to_string(), "fn main() {}".to_string()),
        SourceFile::new("b.bin".to_string(), "not source".to_string()),
        SourceFile::new("c.py".to_string(), "print(1)".to_string()),
    ];
    let chunks = chunk_files(&files, 1024);
    assert_eq!(chunks.len(), 2);
    assert_eq!(chunks[0].get_file_path(), &"a.rs".to_string());
    assert_eq!(chunks[1].get_file_path(), &"c.py".to_string());
}

//! Splitting a tree of source files into ordered, bounded-size text chunks.
//!
//! A file's content is cut into sequential pieces no larger than the size
//! bound; the cut is placed after the last line break inside the bound
//! where one exists, and mid-line only when a single line exceeds the
//! bound. Files with an unrecognized extension are skipped.

use vstd::prelude::*;

use crate::strutil::str_eq;

verus! {

/// The recognized source languages, one per supported file extension.
#[derive(Debug, Clone, Copy, PartialEq, Eq, Structural)]
pub enum Language {
    Rust,
    Python,
    UNKNOWN,
}

/// The language a file extension stands for.
pub open spec fn spec_language_of(ext: Seq<char>) -> Language {
    if ext == "rs"@ {
        Language::Rust
    } else if ext == "py"@ {
        Language::Python
    } else {
        Language::UNKNOWN
    }
}

impl Language {
    /// The language named by a file extension; unrecognized extensions map
    /// to `UNKNOWN`.
    pub fn from_str(ext: &str) -> (r: Language)
        ensures
            r == spec_language_of(ext@),
    {
        if str_eq(ext, "rs") {
            Language::Rust
        } else if str_eq(ext, "py") {
            Language::Python
        } else {
            Language::UNKNOWN
        }
    }
}

/// The position of the last occurrence of `c` before position `i`, or -1.
pub open spec fn find_last(s: Seq<char>, c: char, i: int) -> int
    decreases i,
{
    if i <= 0 {
        -1
    } else if s[i - 1] == c {
        i - 1
    } else {
        find_last(s, c, i - 1)
    }
}

/// The extension of a path: the characters after its last dot, or empty
/// when the path has no dot.
pub open spec fn ext_of(path: Seq<char>) -> Seq<char> {
    if find_last(path, '.', path.len() as int) >= 0 {
        path.skip(find_last(path, '.', path.len() as int) + 1)
    } else {
        Seq::empty()
    }
}

/// Whether the file at `path` is recognized for chunking.
pub open spec fn spec_supported(path: Seq<char>) -> bool {
    spec_language_of(ext_of(path)) != Language::UNKNOWN
}

proof fn lemma_find_last_bounds(s: Seq<char>, c: char, i: int)
    requires
        0 <= i <= s.len(),
    ensures
        -1 <= find_last(s, c, i),
        find_last(s, c, i) < i || find_last(s, c, i) == -1,
    decreases i,
{
    if i > 0 && s[i - 1] != c {
        lemma_find_last_bounds(s, c, i - 1);
    }
}

/// Scans backwards for the last occurrence of `c` in `s` before `i`.
fn find_last_exec(s: &str, c: char, i: usize) -> (r: Option<usize>)
    requires
        i <= s@.len(),
    ensures
        match r {
            Some(j) => find_last(s@, c, i as int) == j,
            None => find_last(s@, c, i as int) == -1,
        },
{
    let mut k: usize = i;
    while k > 0
        invariant
            i <= s@.len(),
            k <= i,
            find_last(s@, c, i as int) == find_last(s@, c, k as int),
        decreases k,
    {
        if s.get_char(k - 1) == c {
            return Some(k - 1);
        }
        k -= 1;
    }
    None
}

/// The language of the file at `path` and whether it is recognized.
pub fn is_supported_file(path: &str) -> (r: (Language, bool))
    ensures
        r.0 == spec_language_of(ext_of(path@)),
        r.1 == spec_supported(path@),
{
    let n: usize = path.unicode_len();
    proof {
        lemma_find_last_bounds(path@, '.', n as int);
    }
    let lang = match find_last_exec(path, '.', n) {
        Some(j) => {
            let ext = path.substring_char(j + 1, n);
            proof {
                assert(path@.subrange(j + 1, n as int) =~= ext_of(path@));
            }
            Language::from_str(ext)
        },
        None => Language::UNKNOWN,
    };
    proof {
        if find_last(path@, '.', n as int) < 0 {
            reveal_strlit("rs");
            reveal_strlit("py");
            assert(ext_of(path@) =~= Seq::<char>::empty());
            assert("rs"@.len() == 2);
            assert(ext_of(path@) != "rs"@);
            assert(ext_of(path@) != "py"@);
            assert(spec_language_of(ext_of(path@)) == Language::UNKNOWN);
        }
    }
    let supported = match lang {
        Language::UNKNOWN => false,
        _ => true,
    };
    (lang, supported)
}

/// Where to cut the next chunk off the front of `s`: the whole remainder
/// when it fits the bound, else just after the last line break inside the
/// bound, else the bound itself.
pub open spec fn split_point(s: Seq<char>, max: int) -> int {
    if s.len() <= max {
        s.len() as int
    } else if find_last(s, '\n', max) >= 0 {
        find_last(s, '\n', max) + 1
    } else {
        max
    }
}

proof fn lemma_split_point_bounds(s: Seq<char>, max: int)
    requires
        max >= 1,
        s.len() > 0,
    ensures
        1 <= split_point(s, max) <= s.len(),
        split_point(s, max) <= max || s.len() <= max,
    decreases max,
{
    if s.len() > max {
        lemma_find_last_bounds(s, '\n', max);
    }
}

/// The ordered chunks of `s` under the size bound `max`.
pub open spec fn spec_split(s: Seq<char>, max: int) -> Seq<Seq<char>>
    decreases s.len(),
        when max >= 1
        via spec_split_decreases
{
    if s.len() == 0 {
        Seq::empty()
    } else {
        seq![s.take(split_point(s, max))] + spec_split(s.skip(split_point(s, max)), max)
    }
}

#[via_fn]
proof fn spec_split_decreases(s: Seq<char>, max: int) {
    if s.len() > 0 {
        lemma_split_point_bounds(s, max);
    }
}

/// Every chunk is non-empty and no longer than the bound.
pub proof fn lemma_split_sizes(s: Seq<char>, max: int)
    requires
        max >= 1,
    ensures
        forall|i: int|
            0 <= i < spec_split(s, max).len() ==> 0 < (#[trigger] spec_split(s, max)[i]).len()
                <= max,
    decreases s.len(),
{
    if s.len() > 0 {
        let p = split_point(s, max);
        lemma_split_point_bounds(s, max);
        lemma_split_sizes(s.skip(p), max);
        let sp = spec_split(s, max);
        let rest = spec_split(s.skip(p), max);
        assert(sp[0] == s.take(p));
        assert(s.take(p).len() == p);
        assert(forall|i: int| 1 <= i < sp.len() ==> sp[i] == rest[i - 1]);
    }
}

/// Concatenating the chunks gives back the whole content: nothing is
/// lost or duplicated by splitting.
pub proof fn lemma_split_concat(s: Seq<char>, max: int)
    requires
        max >= 1,
    ensures
        spec_split(s, max).flatten() == s,
    decreases s.len(),
{
    if s.len() == 0 {
        assert(spec_split(s, max).flatten() =~= s);
    } else {
        let p = split_point(s, max);
        lemma_split_point_bounds(s, max);
        lemma_split_concat(s.skip(p), max);
        let rest = spec_split(s.skip(p), max);
        assert(spec_split(s, max) =~= seq![s.take(p)] + rest);
        assert((seq![s.take(p)] + rest).drop_first() =~= rest);
        assert((seq![s.take(p)] + rest).flatten() == s.take(p) + rest.flatten());
        assert(s.take(p) + s.skip(p) =~= s);
    }
}

/// Chunking is deterministic: identical content and an identical size
/// bound yield the identical ordered chunk sequence, on every run.
pub proof fn lemma_chunking_deterministic(a: Seq<char>, b: Seq<char>, max_a: int, max_b: int)
    requires
        a == b,
        max_a == max_b,
        max_a >= 1,
    ensures
        spec_split(a, max_a) == spec_split(b, max_b),
{
}

/// Computes `split_point` of the suffix of `content` starting at `start`.
fn split_point_exec(content: &str, start: usize, n: usize, max_chunk_size: usize) -> (p: usize)
    requires
        n == content@.len(),
        start < n,
        max_chunk_size >= 1,
    ensures
        p == split_point(content@.skip(start as int), max_chunk_size as int),
        1 <= p,
        start + p <= n,
{
    let ghost suffix = content@.skip(start as int);
    if n - start <= max_chunk_size {
        return n - start;
    }
    proof {
        lemma_find_last_bounds(suffix, '\n', max_chunk_size as int);
    }
    let mut i: usize = max_chunk_size;
    while i > 0
        invariant
            n == content@.len(),
            start < n,
            suffix == content@.skip(start as int),
            max_chunk_size < n - start,
            i <= max_chunk_size,
            find_last(suffix, '\n', max_chunk_size as int) == find_last(suffix, '\n', i as int),
        decreases i,
    {
        if content.get_char(start + i - 1) == '\n' {
            assert(suffix[i - 1] == '\n');
            return i;
        }
        assert(suffix[i - 1] != '\n');
        i -= 1;
    }
    max_chunk_size
}

/// Splits `content` into ordered chunks of at most `max_chunk_size`
/// characters, cutting after the last line break inside the bound where
/// one exists. Empty content yields no chunks.
pub fn split_content(content: &str, max_chunk_size: usize) -> (chunks: Vec<String>)
    requires
        max_chunk_size >= 1,
    ensures
        chunks.deep_view() == spec_split(content@, max_chunk_size as int),
        forall|i: int| 0 <= i < chunks@.len() ==> (#[trigger] chunks@[i])@.len() <= max_chunk_size,
{
    let n: usize = content.unicode_len();
    let mut chunks: Vec<String> = Vec::new();
    let mut start: usize = 0;
    proof {
        assert(content@.skip(0) =~= content@);
        assert(chunks.deep_view() + spec_split(content@, max_chunk_size as int) =~= spec_split(
            content@,
            max_chunk_size as int,
        ));
    }
    while start < n
        invariant
            n == content@.len(),
            max_chunk_size >= 1,
            start <= n,
            spec_split(content@, max_chunk_size as int) == chunks.deep_view() + spec_split(
                content@.skip(start as int),
                max_chunk_size as int,
            ),
        decreases n - start,
    {
        let ghost old_dv = chunks.deep_view();
        let ghost suffix = content@.skip(start as int);
        let p = split_point_exec(content, start, n, max_chunk_size);
        let piece = content.substring_char(start, start + p);
        chunks.push(piece.to_owned());
        proof {
            assert(suffix.take(p as int) =~= content@.subrange(start as int, start as int + p));
            assert(suffix.skip(p as int) =~= content@.skip(start as int + p));
            assert(chunks.deep_view() =~= old_dv.push(suffix.take(p as int)));
            assert(old_dv + spec_split(suffix, max_chunk_size as int) =~= chunks.deep_view()
                + spec_split(content@.skip(start as int + p), max_chunk_size as int));
        }
        start += p;
    }
    proof {
        assert(content@.skip(n as int) =~= Seq::<char>::empty());
        assert(chunks.deep_view() + spec_split(content@.skip(n as int), max_chunk_size as int)
            =~= chunks.deep_view());
        lemma_split_sizes(content@, max_chunk_size as int);
        assert(forall|i: int|
            0 <= i < chunks@.len() ==> (#[trigger] chunks@[i])@ == chunks.deep_view()[i]);
    }
    chunks
}

/// One bounded slice of a source file's text, with its origin.
pub struct FileChunk {
    /// The chunk's text, at most the configured bound in length.
    pub content: String,
    /// The path of the file the chunk was cut from.
    pub file_path: String,
    /// The 0-based position of this chunk within its file.
    pub chunk_number: usize,
}

/// The mathematical image of a `FileChunk`.
pub struct FileChunkView {
    pub content: Seq<char>,
    pub file_path: Seq<char>,
    pub chunk_number: int,
}

impl View for FileChunk {
    type V = FileChunkView;

    open spec fn view(&self) -> FileChunkView {
        FileChunkView {
            content: self.content@,
            file_path: self.file_path@,
            chunk_number: self.chunk_number as int,
        }
    }
}

impl DeepView for FileChunk {
    type V = FileChunkView;

    open spec fn deep_view(&self) -> FileChunkView {
        self.view()
    }
}

impl FileChunk {
    /// A chunk from its parts.
    pub fn new(content: String, file_path: String, chunk_number: usize) -> (r: FileChunk)
        ensures
            r@.content == content@,
            r@.file_path == file_path@,
            r@.chunk_number == chunk_number,
    {
        FileChunk { content, file_path, chunk_number }
    }

    /// The chunk's text.
    pub fn get_content(&self) -> (r: String)
        ensures
            r@ == self@.content,
    {
        self.content.clone()
    }

    /// The path of the file the chunk came from.
    pub fn get_file_path(&self) -> (r: &String)
        ensures
            r@ == self@.file_path,
    {
        &self.file_path
    }

    /// The chunk's position within its file.
    pub fn get_chunk_number(&self) -> (r: usize)
        ensures
            r == self@.chunk_number,
    {
        self.chunk_number
    }
}

/// One input file handed to the chunker: a path and the text read from it.
pub struct SourceFile {
    pub path: String,
    pub content: String,
}

impl SourceFile {
    /// A source file from its path and content.
    pub fn new(path: String, content: String) -> (r: SourceFile)
        ensures
            r.path@ == path@,
            r.content@ == content@,
    {
        SourceFile { path, content }
    }
}

/// The chunks of one file: the split pieces in order, each carrying the
/// file's path and its 0-based position.
pub open spec fn spec_file_chunks(path: Seq<char>, content: Seq<char>, max: int) -> Seq<
    FileChunkView,
> {
    Seq::new(
        spec_split(content, max).len(),
        |i: int|
            FileChunkView { content: spec_split(content, max)[i], file_path: path, chunk_number: i },
    )
}

/// The chunks of a file list, in file order; files with an unrecognized
/// extension contribute nothing.
pub open spec fn spec_files_chunks(files: Seq<(Seq<char>, Seq<char>)>, max: int) -> Seq<
    FileChunkView,
>
    decreases files.len(),
{
    if files.len() == 0 {
        Seq::empty()
    } else {
        let head = if spec_supported(files[0].0) {
            spec_file_chunks(files[0].0, files[0].1, max)
        } else {
            Seq::empty()
        };
        head + spec_files_chunks(files.skip(1), max)
    }
}

/// Splits one file's content into ordered `FileChunk`s numbered from 0.
pub fn chunk_file(file_path: &str, content: &str, max_chunk_size: usize) -> (chunks: Vec<
    FileChunk,
>)
    requires
        max_chunk_size >= 1,
    ensures
        chunks.deep_view() == spec_file_chunks(file_path@, content@, max_chunk_size as int),
{
    let pieces = split_content(content, max_chunk_size);
    let mut chunks: Vec<FileChunk> = Vec::new();
    let mut i: usize = 0;
    while i < pieces.len()
        invariant
            max_chunk_size >= 1,
            i <= pieces@.len(),
            pieces.deep_view() == spec_split(content@, max_chunk_size as int),
            chunks.deep_view() =~= spec_file_chunks(
                file_path@,
                content@,
                max_chunk_size as int,
            ).take(i as int),
        decreases pieces@.len() - i,
    {
        let ghost old_dv = chunks.deep_view();
        let piece = pieces[i].clone();
        chunks.push(FileChunk::new(piece, file_path.to_owned(), i));
        proof {
            assert(pieces@[i as int]@ == pieces.deep_view()[i as int]);
            assert(chunks.deep_view() =~= old_dv.push(chunks@[i as int]@));
            assert(chunks.deep_view() =~= spec_file_chunks(
                file_path@,
                content@,
                max_chunk_size as int,
            ).take(i + 1));
        }
        i += 1;
    }
    proof {
        assert(spec_file_chunks(file_path@, content@, max_chunk_size as int).take(
            pieces@.len() as int,
        ) =~= spec_file_chunks(file_path@, content@, max_chunk_size as int));
    }
    chunks
}

/// The view of a file list as path/content pairs.
pub open spec fn files_view(files: Seq<SourceFile>) -> Seq<(Seq<char>, Seq<char>)> {
    files.map_values(|f: SourceFile| (f.path@, f.content@))
}

/// Splits every recognized file of `files` into ordered chunks, keeping
/// the given file order; unrecognized files are skipped silently.
pub fn chunk_files(files: &Vec<SourceFile>, max_chunk_size: usize) -> (chunks: Vec<FileChunk>)
    requires
        max_chunk_size >= 1,
    ensures
        chunks.deep_view() == spec_files_chunks(files_view(files@), max_chunk_size as int),
{
    let mut chunks: Vec<FileChunk> = Vec::new();
    let mut i: usize = 0;
    proof {
        assert(files_view(files@).take(0) =~= Seq::<(Seq<char>, Seq<char>)>::empty());
    }
    while i < files.len()
        invariant
            max_chunk_size >= 1,
            i <= files@.len(),
            chunks.deep_view() =~= spec_files_chunks(
                files_view(files@).take(i as int),
                max_chunk_size as int,
            ),
        decreases files@.len() - i,
    {
        let ghost old_dv = chunks.deep_view();
        let f = &files[i];
        let (_, supported) = is_supported_file(f.path.as_str());
        if supported {
            let mut file_chunks = chunk_file(f.path.as_str(), f.content.as_str(), max_chunk_size);
            let mut j: usize = 0;
            let ghost fc = spec_file_chunks(f.path@, f.content@, max_chunk_size as int);
            while j < file_chunks.len()
                invariant
                    j <= file_chunks@.len(),
                    file_chunks.deep_view() == fc,
                    chunks.deep_view() =~= old_dv + fc.take(j as int),
                decreases file_chunks@.len() - j,
            {
                let ghost prev = chunks.deep_view();
                let c = FileChunk {
                    content: file_chunks[j].content.clone(),
                    file_path: file_chunks[j].file_path.clone(),
                    chunk_number: file_chunks[j].chunk_number,
                };
                chunks.push(c);
                proof {
                    assert(chunks.deep_view() =~= prev.push(fc[j as int]));
                    assert(chunks.deep_view() =~= old_dv + fc.take(j + 1));
                }
                j += 1;
            }
            proof {
                assert(fc.take(file_chunks@.len() as int) =~= fc);
            }
        }
        proof {
            lemma_files_chunks_take(files_view(files@), max_chunk_size as int, i as int);
        }
        i += 1;
    }
    proof {
        assert(files_view(files@).take(files@.len() as int) =~= files_view(files@));
    }
    chunks
}

/// Extending the file prefix by one file appends that file's chunks.
proof fn lemma_files_chunks_take(files: Seq<(Seq<char>, Seq<char>)>, max: int, i: int)
    requires
        0 <= i < files.len(),
    ensures
        spec_files_chunks(files.take(i + 1), max) == spec_files_chunks(files.take(i), max) + (
        if spec_supported(files[i].0) {
            spec_file_chunks(files[i].0, files[i].1, max)
        } else {
            Seq::<FileChunkView>::empty()
        }),
    decreases i,
{
    if i == 0 {
        assert(files.take(1) =~= seq![files[0]]);
        assert(files.take(0) =~= Seq::<(Seq<char>, Seq<char>)>::empty());
        assert(seq![files[0]].skip(1) =~= Seq::<(Seq<char>, Seq<char>)>::empty());
        assert(spec_files_chunks(files.take(i), max) + (if spec_supported(files[0].0) {
            spec_file_chunks(files[0].0, files[0].1, max)
        } else {
            Seq::<FileChunkView>::empty()
        }) =~= spec_files_chunks(files.take(1), max));
    } else {
        lemma_files_chunks_take(files.skip(1), max, i - 1);
        assert(files.take(i + 1).skip(1) =~= files.skip(1).take(i));
        assert(files.take(i).skip(1) =~= files.skip(1).take(i - 1));
        assert(files.skip(1)[i - 1] == files[i]);
        let head = if spec_supported(files[0].0) {
            spec_file_chunks(files[0].0, files[0].1, max)
        } else {
            Seq::<FileChunkView>::empty()
        };
        assert(spec_files_chunks(files.take(i + 1), max) == head + spec_files_chunks(
            files.skip(1).take(i),
            max,
        ));
        assert(spec_files_chunks(files.take(i), max) == head + spec_files_chunks(
            files.skip(1).take(i - 1),
            max,
        ));
        assert(spec_files_chunks(files.take(i + 1), max) =~= spec_files_chunks(files.take(i), max)
            + (if spec_supported(files[i].0) {
            spec_file_chunks(files[i].0, files[i].1, max)
        } else {
            Seq::<FileChunkView>::empty()
        }));
    }
}

/// An embedding request for one chunk: the provider coordinates, the
/// chunk's text as the input, and the chunk's origin as metadata.
pub struct ChunkEmbedRequest {
    pub provider: String,
    pub api_url: String,
    pub api_key: String,
    pub model: String,
    pub input: String,
    pub metadata: Option<String>,
    pub chunk_number: Option<usize>,
}

/// Builds the embedding request for one chunk: the input is the chunk's
/// text, the metadata its file path, the chunk number its position.
pub fn chunk_embed_request(
    chunk: &FileChunk,
    provider: &str,
    api_url: &str,
    api_key: &str,
    model: &str,
) -> (r: ChunkEmbedRequest)
    ensures
        r.provider@ == provider@,
        r.api_url@ == api_url@,
        r.api_key@ == api_key@,
        r.model@ == model@,
        r.input@ == chunk@.content,
        r.metadata matches Some(m) && m@ == chunk@.file_path,
        r.chunk_number == Some(chunk.chunk_number),
{
    ChunkEmbedRequest {
        provider: provider.to_owned(),
        api_url: api_url.to_owned(),
        api_key: api_key.to_owned(),
        model: model.to_owned(),
        input: chunk.content.clone(),
        metadata: Some(chunk.file_path.clone()),
        chunk_number: Some(chunk.chunk_number),
    }
}

} // verus!

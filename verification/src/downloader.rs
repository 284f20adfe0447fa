//! The decisions of the download engine: which file name a URL gives, how a
//! free name is found beside existing files, whether a server allows ranged
//! downloads, and how a file is cut into chunks fetched in parallel.
use vstd::prelude::*;

use crate::text::{
    after_last_index, append_decimal, chars_of, decimal, find_after_last, find_first, first_index,
    lemma_after_last_index, lemma_first_index, string_from_chars,
};

verus! {

broadcast use vstd::string::group_string_axioms;

/// Files at least this large are fetched in parallel chunks, and no chunk is
/// planned smaller than this (one mebibyte).
pub const MIN_CHUNK_SIZE: u64 = 1048576;

/// The name used when a URL names no file.
pub const FALLBACK_FILENAME: &'static str = "download";

/// A progress report that a download task sends to the application.
#[allow(inconsistent_fields)]
#[derive(Debug, Clone)]
pub enum DownloadProgress {
    Started { id: usize, filename: String, total_bytes: Option<u64> },
    Progress { id: usize, downloaded: u64, total: Option<u64> },
    Completed { id: usize, filepath: String, total_bytes: u64 },
    Failed { id: usize, error: String },
}

/// A progress report with its texts as character sequences.
#[allow(inconsistent_fields)]
pub enum ProgressView {
    Started { id: usize, filename: Seq<char>, total_bytes: Option<u64> },
    Progress { id: usize, downloaded: u64, total: Option<u64> },
    Completed { id: usize, filepath: Seq<char>, total_bytes: u64 },
    Failed { id: usize, error: Seq<char> },
}

impl View for DownloadProgress {
    type V = ProgressView;

    open spec fn view(&self) -> ProgressView {
        match self {
            DownloadProgress::Started { id, filename, total_bytes } => ProgressView::Started {
                id: *id,
                filename: filename@,
                total_bytes: *total_bytes,
            },
            DownloadProgress::Progress { id, downloaded, total } => ProgressView::Progress {
                id: *id,
                downloaded: *downloaded,
                total: *total,
            },
            DownloadProgress::Completed { id, filepath, total_bytes } => ProgressView::Completed {
                id: *id,
                filepath: filepath@,
                total_bytes: *total_bytes,
            },
            DownloadProgress::Failed { id, error } => ProgressView::Failed {
                id: *id,
                error: error@,
            },
        }
    }
}

/// The last path segment of `url`: what follows its last `/`.
pub open spec fn last_segment(url: Seq<char>) -> Seq<char> {
    url.subrange(after_last_index(url, '/'), url.len() as int)
}

/// The file name a URL gives: its last path segment up to the first `?`,
/// or `download` when that is empty.
pub open spec fn filename_of(url: Seq<char>) -> Seq<char> {
    let seg = last_segment(url);
    let name = seg.subrange(0, first_index(seg, '?'));
    if name.len() == 0 {
        FALLBACK_FILENAME@
    } else {
        name
    }
}

/// The file name to save a URL's content under: the text after the last `/`,
/// cut at the first `?`, or `download` when nothing is left.
pub fn extract_filename(url: &str) -> (name: String)
    ensures
        name@ == filename_of(url@),
{
    let v = chars_of(url);
    let n = v.len();
    assert(v@.subrange(0, n as int) =~= v@);
    let start = find_after_last(&v, n, '/');
    proof {
        lemma_after_last_index(v@, '/');
    }
    let len = find_first(&v, start, n, '?');
    if len == 0 {
        String::from_str(FALLBACK_FILENAME)
    } else {
        let name = string_from_chars(&v, start, start + len);
        assert(name@ =~= last_segment(url@).subrange(0, len as int));
        name
    }
}

/// The stem of a file name: everything before its last `.`, or the whole
/// name when it has none.
pub open spec fn stem_of(name: Seq<char>) -> Seq<char> {
    let k = after_last_index(name, '.');
    if k > 0 {
        name.subrange(0, k - 1)
    } else {
        name
    }
}

/// The extension of a file name: its last `.` and what follows, or nothing.
pub open spec fn extension_of(name: Seq<char>) -> Seq<char> {
    let k = after_last_index(name, '.');
    if k > 0 {
        name.subrange(k - 1, name.len() as int)
    } else {
        Seq::empty()
    }
}

/// Splits a file name at its last `.` into stem and extension (the
/// extension keeps the dot); a name without a dot has an empty extension.
pub fn split_extension(name: &str) -> (parts: (String, String))
    ensures
        parts.0@ == stem_of(name@),
        parts.1@ == extension_of(name@),
        parts.0@ + parts.1@ == name@,
{
    let v = chars_of(name);
    let n = v.len();
    assert(v@.subrange(0, n as int) =~= v@);
    let k = find_after_last(&v, n, '.');
    proof {
        lemma_after_last_index(v@, '.');
    }
    if k > 0 {
        let stem = string_from_chars(&v, 0, k - 1);
        let ext = string_from_chars(&v, k - 1, n);
        assert(stem@ + ext@ =~= name@);
        (stem, ext)
    } else {
        let whole = string_from_chars(&v, 0, n);
        assert(whole@ + Seq::<char>::empty() =~= name@);
        (whole, String::new())
    }
}

/// The name tried for the `counter`-th time when saving a file called
/// `base`: `base` itself first, then `stem (1).ext`, `stem (2).ext`, ...
pub open spec fn candidate_name(base: Seq<char>, counter: nat) -> Seq<char> {
    if counter == 0 {
        base
    } else {
        stem_of(base) + " ("@ + decimal(counter) + ")"@ + extension_of(base)
    }
}

/// The `counter`-th name to try for a file called `base` (see `candidate_name`).
pub fn candidate_filename(base: &str, counter: u64) -> (name: String)
    ensures
        name@ == candidate_name(base@, counter as nat),
{
    if counter == 0 {
        return String::from_str(base);
    }
    let (stem, ext) = split_extension(base);
    let mut name = stem;
    name.append(" (");
    append_decimal(&mut name, counter);
    name.append(")");
    name.append(ext.as_str());
    name
}

} // verus!

verus! {

/// A file name taken from a URL is never empty and holds neither `/` nor `?`.
pub proof fn lemma_filename_is_plain(url: Seq<char>)
    ensures
        filename_of(url).len() > 0,
        forall|i: int|
            0 <= i < filename_of(url).len() ==> #[trigger] filename_of(url)[i] != '/'
                && filename_of(url)[i] != '?',
{
    reveal_strlit("download");
    lemma_after_last_index(url, '/');
    let k = after_last_index(url, '/');
    let seg = last_segment(url);
    lemma_first_index(seg, '?');
    let name = seg.subrange(0, first_index(seg, '?'));
    if name.len() > 0 {
        assert forall|i: int| 0 <= i < name.len() implies name[i] != '/' && name[i] != '?' by {
            assert(name[i] == seg[i]);
            assert(seg[i] == url[k + i]);
        }
    }
}

/// Distinct counters give distinct candidate names, so the search for a free
/// name never tries one twice; the first candidate is the name itself.
pub proof fn lemma_candidate_names_distinct(base: Seq<char>, n: nat, m: nat)
    requires
        n != m,
    ensures
        candidate_name(base, n) != candidate_name(base, m),
        candidate_name(base, 0) == base,
{
    reveal_strlit(" (");
    reveal_strlit(")");
    lemma_after_last_index(base, '.');
    assert(stem_of(base) + extension_of(base) =~= base);
    if n == 0 || m == 0 {
        let k = if n == 0 { m } else { n };
        crate::text::lemma_decimal_digits(k);
        assert(candidate_name(base, k).len() > base.len());
    } else {
        let a = candidate_name(base, n);
        let b = candidate_name(base, m);
        if a == b {
            let p = stem_of(base) + " ("@;
            let dn = decimal(n);
            let dm = decimal(m);
            let e = ")"@ + extension_of(base);
            assert(a =~= p + (dn + e));
            assert(b =~= p + (dm + e));
            assert(dn.len() == dm.len());
            assert forall|i: int| 0 <= i < dn.len() implies dn[i] == dm[i] by {
                assert(a[p.len() + i] == dn[i]);
                assert(b[p.len() + i] == dm[i]);
            }
            assert(dn =~= dm);
            crate::text::lemma_decimal_injective(n, m);
        }
    }
}

/// Whether an HTTP status code is a success (`200..=299`), as
/// `StatusCode::is_success` answers.
pub open spec fn is_success_status(status: u16) -> bool {
    200 <= status <= 299
}

/// Whether an HTTP status code is a success (`200..=299`).
pub fn status_is_success(status: u16) -> (b: bool)
    ensures
        b == is_success_status(status),
{
    200 <= status && status <= 299
}

/// The ASCII lower-case form of a character; other characters are kept.
pub open spec fn ascii_lower(c: char) -> char {
    if 'A' <= c && c <= 'Z' {
        ((c as int) + 32) as char
    } else {
        c
    }
}

/// Whether `s`, compared without regard to ASCII letter case, contains the
/// range unit `bytes`.
pub open spec fn mentions_bytes(s: Seq<char>) -> bool {
    crate::text::contains_seq(s.map_values(|c: char| ascii_lower(c)), "bytes"@)
}

/// The size to fetch in ranges, when the answer to a `HEAD` request allows
/// it: the request succeeded, its `Accept-Ranges` header mentions `bytes`
/// (in any letter case), and it gave a content length. `accept_ranges` is
/// `None` when the header is missing or not visible ASCII.
pub open spec fn range_size(
    status: u16,
    accept_ranges: Option<Seq<char>>,
    content_length: Option<u64>,
) -> Option<u64> {
    if is_success_status(status) && accept_ranges is Some && mentions_bytes(accept_ranges->0) {
        content_length
    } else {
        None
    }
}

fn lower_chars(v: &Vec<char>) -> (r: Vec<char>)
    ensures
        r@ == v@.map_values(|c: char| ascii_lower(c)),
{
    let mut r: Vec<char> = Vec::new();
    let mut i: usize = 0;
    while i < v.len()
        invariant
            i <= v@.len(),
            r@ == v@.subrange(0, i as int).map_values(|c: char| ascii_lower(c)),
        decreases v@.len() - i,
    {
        let c = v[i];
        let l = if 'A' <= c && c <= 'Z' {
            ((c as u32 + 32) as u8) as char
        } else {
            c
        };
        assert(l == ascii_lower(c));
        r.push(l);
        i = i + 1;
        assert(r@ =~= v@.subrange(0, i as int).map_values(|c: char| ascii_lower(c)));
    }
    assert(v@.subrange(0, i as int) =~= v@);
    r
}

/// Decides from the answer to a `HEAD` request whether the file can be
/// fetched in ranges, and returns its size if so (see `range_size`).
pub fn range_support(status: u16, accept_ranges: Option<&str>, content_length: Option<u64>) -> (r:
    Option<u64>)
    ensures
        r == range_size(
            status,
            match accept_ranges {
                Some(s) => Some(s@),
                None => None,
            },
            content_length,
        ),
{
    if !status_is_success(status) {
        return None;
    }
    match accept_ranges {
        Some(s) => {
            let lowered = lower_chars(&chars_of(s));
            let unit = chars_of("bytes");
            if crate::text::contains_chars(&lowered, &unit) {
                content_length
            } else {
                None
            }
        },
        None => None,
    }
}

} // verus!

verus! {

/// How a file is fetched.
#[derive(Debug, Clone, Copy, PartialEq, Eq, Structural)]
pub enum Strategy {
    /// In parallel ranged chunks; the file has `total_size` bytes.
    Parallel { total_size: u64 },
    /// In one streamed request.
    Single,
}

/// The strategy for a file whose ranged size is `range_size` (`None` when
/// the server does not allow ranges): parallel chunks for files of at least
/// `MIN_CHUNK_SIZE` bytes, one request otherwise.
pub open spec fn strategy_for(range_size: Option<u64>) -> Strategy {
    match range_size {
        Some(total) => if total >= MIN_CHUNK_SIZE {
            Strategy::Parallel { total_size: total }
        } else {
            Strategy::Single
        },
        None => Strategy::Single,
    }
}

/// Chooses how to fetch a file from what `range_support` found.
pub fn download_strategy(range_size: Option<u64>) -> (s: Strategy)
    ensures
        s == strategy_for(range_size),
{
    match range_size {
        Some(total) => if total >= MIN_CHUNK_SIZE {
            Strategy::Parallel { total_size: total }
        } else {
            Strategy::Single
        },
        None => Strategy::Single,
    }
}

/// The number of chunks a file of `total` bytes is cut into: one per whole
/// `MIN_CHUNK_SIZE`, at most `max_chunks`, and at least one.
pub open spec fn chunk_count(total: nat, max_chunks: nat) -> nat {
    let by_size = total / (MIN_CHUNK_SIZE as nat);
    let capped = if by_size < max_chunks {
        by_size
    } else {
        max_chunks
    };
    if capped < 1 {
        1
    } else {
        capped
    }
}

/// The inclusive byte range of chunk `i` of `n` in a file of `total` bytes:
/// every chunk has `total / n` bytes but the last, which also takes the rest.
pub open spec fn chunk_range(total: nat, n: nat, i: nat) -> (u64, u64) {
    let size = total / n;
    let start = i * size;
    let end = if i + 1 == n {
        total - 1
    } else {
        (i + 1) * size - 1
    };
    (start as u64, end as u64)
}

proof fn lemma_chunk_size(total: nat, max_chunks: nat)
    requires
        total >= 1,
    ensures
        chunk_count(total, max_chunks) >= 1,
        chunk_count(total, max_chunks) <= total,
        chunk_count(total, max_chunks) * (total / chunk_count(total, max_chunks)) <= total,
        total / chunk_count(total, max_chunks) >= 1,
        total >= MIN_CHUNK_SIZE ==> total / chunk_count(total, max_chunks) >= MIN_CHUNK_SIZE,
{
    let n = chunk_count(total, max_chunks);
    let m = MIN_CHUNK_SIZE as nat;
    let by_size = total / m;
    assert(by_size * m <= total) by (nonlinear_arith)
        requires
            by_size == total / m,
            m > 0,
    ;
    assert(n <= by_size || n == 1);
    assert(n <= total) by (nonlinear_arith)
        requires
            n <= by_size || n == 1,
            by_size * m <= total,
            m >= 1,
            total >= 1,
    ;
    assert(n * (total / n) <= total) by (nonlinear_arith)
        requires
            n >= 1,
    ;
    assert(total / n >= 1) by (nonlinear_arith)
        requires
            n >= 1,
            n <= total,
    ;
    if total >= m {
        assert(by_size >= 1) by (nonlinear_arith)
            requires
                by_size == total / m,
                total >= m,
                m > 0,
        ;
        assert(n <= by_size);
        assert(total / n >= m) by (nonlinear_arith)
            requires
                n >= 1,
                n <= by_size,
                by_size * m <= total,
        ;
    }
}

/// Cuts a file of `total_size` bytes into `chunk_count` consecutive inclusive
/// byte ranges (see `chunk_range`).
pub fn plan_chunks(total_size: u64, max_chunks: usize) -> (chunks: Vec<(u64, u64)>)
    requires
        total_size >= 1,
    ensures
        chunks@.len() == chunk_count(total_size as nat, max_chunks as nat),
        forall|i: int|
            0 <= i < chunks@.len() ==> #[trigger] chunks@[i] == chunk_range(
                total_size as nat,
                chunks@.len() as nat,
                i as nat,
            ),
{
    proof {
        lemma_chunk_size(total_size as nat, max_chunks as nat);
    }
    let by_size = total_size / MIN_CHUNK_SIZE;
    let capped: u64 = if by_size < max_chunks as u64 {
        by_size
    } else {
        max_chunks as u64
    };
    let n: u64 = if capped < 1 {
        1
    } else {
        capped
    };
    assert(n == chunk_count(total_size as nat, max_chunks as nat));
    let size = total_size / n;
    let mut chunks: Vec<(u64, u64)> = Vec::new();
    let mut i: u64 = 0;
    while i < n
        invariant
            n == chunk_count(total_size as nat, max_chunks as nat),
            1 <= n <= total_size,
            size == total_size / n,
            size >= 1,
            n * size <= total_size,
            i <= n,
            chunks@.len() == i,
            forall|j: int|
                0 <= j < i ==> #[trigger] chunks@[j] == chunk_range(
                    total_size as nat,
                    n as nat,
                    j as nat,
                ),
        decreases n - i,
    {
        assert((i + 1) * size <= n * size) by (nonlinear_arith)
            requires
                i + 1 <= n,
        ;
        assert(i * size <= (i + 1) * size) by (nonlinear_arith);
        assert((i + 1) * size >= 1) by (nonlinear_arith)
            requires
                size >= 1,
        ;
        let start = i * size;
        let end = if i == n - 1 {
            total_size - 1
        } else {
            (i + 1) * size - 1
        };
        chunks.push((start, end));
        i = i + 1;
    }
    chunks
}

/// The chunks of a plan cover the whole file, in order and without gaps or
/// overlaps: the first starts at byte 0, each starts right after the one
/// before ends, the last ends at the last byte, and none is empty. When the
/// file is at least `MIN_CHUNK_SIZE` bytes long, every chunk is too.
pub proof fn lemma_chunks_partition(total: nat, max_chunks: nat)
    requires
        1 <= total <= u64::MAX,
    ensures
        ({
            let n = chunk_count(total, max_chunks);
            &&& n >= 1
            &&& max_chunks >= 1 ==> n <= max_chunks
            &&& chunk_range(total, n, 0).0 == 0
            &&& chunk_range(total, n, (n - 1) as nat).1 == total - 1
            &&& forall|i: nat|
                i + 1 < n ==> #[trigger] chunk_range(total, n, i + 1).0 == chunk_range(
                    total,
                    n,
                    i,
                ).1 + 1
            &&& forall|i: nat|
                i < n ==> #[trigger] chunk_range(total, n, i).0 <= chunk_range(total, n, i).1
            &&& total >= MIN_CHUNK_SIZE ==> forall|i: nat|
                i < n ==> #[trigger] chunk_range(total, n, i).1 - chunk_range(total, n, i).0 + 1
                    >= MIN_CHUNK_SIZE
        }),
{
    lemma_chunk_size(total, max_chunks);
    let n = chunk_count(total, max_chunks);
    let size = total / n;
    assert forall|i: nat| i < n implies {
        &&& #[trigger] chunk_range(total, n, i).0 == i * size
        &&& chunk_range(total, n, i).1 == if i + 1 == n {
            total - 1
        } else {
            (i + 1) * size - 1
        }
        &&& i * size + size <= total
        &&& (i + 1) * size == i * size + size
    } by {
        assert((i + 1) * size <= n * size) by (nonlinear_arith)
            requires
                i + 1 <= n,
        ;
        assert((i + 1) * size == i * size + size) by (nonlinear_arith);
        assert(0 <= i * size) by (nonlinear_arith);
    }
    assert forall|i: nat| i + 1 < n implies #[trigger] chunk_range(total, n, i + 1).0
        == chunk_range(total, n, i).1 + 1 by {
        assert(chunk_range(total, n, i + 1).0 == (i + 1) * size);
        assert((i + 1) * size == i * size + size) by (nonlinear_arith);
    }
    assert(chunk_range(total, n, 0).0 == 0) by {
        assert(chunk_range(total, n, 0).0 == 0 * size);
        assert(0 * size == 0) by (nonlinear_arith);
    }
    assert(chunk_range(total, n, (n - 1) as nat).1 == total - 1);
    assert(max_chunks >= 1 ==> n <= max_chunks);
    assert forall|i: nat| i < n implies #[trigger] chunk_range(total, n, i).0 <= chunk_range(
        total,
        n,
        i,
    ).1 by {
        assert(chunk_range(total, n, i).0 == i * size);
    }
    if total >= MIN_CHUNK_SIZE {
        assert forall|i: nat| i < n implies #[trigger] chunk_range(total, n, i).1 - chunk_range(
            total,
            n,
            i,
        ).0 + 1 >= MIN_CHUNK_SIZE by {
            assert(chunk_range(total, n, i).0 == i * size);
        }
    }
}

} // verus!

verus! {

/// `s` with every `.` replaced by `_`.
pub open spec fn dots_to_underscores(s: Seq<char>) -> Seq<char> {
    s.map_values(|c: char| if c == '.' { '_' } else { c })
}

/// The name of the directory that holds the chunks of download `id` of
/// `filename` while they are fetched: `.tmp_<id>_<filename with . as _>`.
pub open spec fn temp_dir_name_spec(id: usize, filename: Seq<char>) -> Seq<char> {
    ".tmp_"@ + decimal(id as nat) + "_"@ + dots_to_underscores(filename)
}

/// The directory name for the chunks of download `id` (see `temp_dir_name_spec`).
pub fn temp_dir_name(id: usize, filename: &str) -> (name: String)
    ensures
        name@ == temp_dir_name_spec(id, filename@),
{
    let mut name = String::from_str(".tmp_");
    append_decimal(&mut name, id as u64);
    name.append("_");
    let v = chars_of(filename);
    let ghost prefix = name@;
    let mut i: usize = 0;
    while i < v.len()
        invariant
            i <= v@.len(),
            v@ == filename@,
            name@ == prefix + dots_to_underscores(v@.subrange(0, i as int)),
        decreases v@.len() - i,
    {
        let c = v[i];
        crate::text::push_char(&mut name, if c == '.' { '_' } else { c });
        i = i + 1;
        assert(dots_to_underscores(v@.subrange(0, i as int)) =~= dots_to_underscores(
            v@.subrange(0, i - 1),
        ).push(if c == '.' { '_' } else { c }));
    }
    assert(v@.subrange(0, i as int) =~= v@);
    name
}

/// The `Range` header value asking for bytes `start..=end`: `bytes=<start>-<end>`.
pub open spec fn range_header_spec(start: u64, end: u64) -> Seq<char> {
    "bytes="@ + decimal(start as nat) + "-"@ + decimal(end as nat)
}

/// The `Range` header value for the inclusive byte range `start..=end`.
pub fn range_header(start: u64, end: u64) -> (h: String)
    ensures
        h@ == range_header_spec(start, end),
{
    let mut h = String::from_str("bytes=");
    append_decimal(&mut h, start);
    h.append("-");
    append_decimal(&mut h, end);
    h
}

/// The file name of chunk `idx` inside the temporary directory: `chunk_<idx>`.
pub open spec fn chunk_file_name_spec(idx: usize) -> Seq<char> {
    "chunk_"@ + decimal(idx as nat)
}

/// The file name under which chunk `idx` is stored while it is fetched.
pub fn chunk_file_name(idx: usize) -> (name: String)
    ensures
        name@ == chunk_file_name_spec(idx),
{
    let mut name = String::from_str("chunk_");
    append_decimal(&mut name, idx as u64);
    name
}

} // verus!

verus! {

/// A file name taken from a URL, read as a URL again, gives itself back.
pub proof fn lemma_filename_idempotent(url: Seq<char>)
    ensures
        filename_of(filename_of(url)) == filename_of(url),
{
    let f = filename_of(url);
    lemma_filename_is_plain(url);
    lemma_after_last_index(f, '/');
    let k = after_last_index(f, '/');
    if k > 0 {
        assert(f[k - 1] == '/');
    }
    assert(last_segment(f) =~= f);
    lemma_first_index(f, '?');
    let q = first_index(f, '?');
    if q < f.len() {
        assert(f[q] == '?');
    }
    assert(f.subrange(0, q) =~= f);
}

/// Whether `url[i..j]` is the stretch a file name is cut from: it follows a
/// `/` or starts the URL, no `/` comes after its start, it holds no `?`,
/// and it runs to a `?` or to the end.
pub open spec fn is_name_stretch(url: Seq<char>, i: int, j: int) -> bool {
    &&& 0 <= i <= j <= url.len()
    &&& (i == 0 || url[i - 1] == '/')
    &&& (forall|k: int| i <= k < url.len() ==> url[k] != '/')
    &&& (forall|k: int| i <= k < j ==> url[k] != '?')
    &&& (j == url.len() || url[j] == '?')
}

/// The file name is the stretch of the URL after its last `/` (or from its
/// start) up to the first `?` after that (or to its end), character for
/// character as the URL has it; when that stretch is empty the name is
/// `download`.
pub proof fn lemma_filename_is_url_slice(url: Seq<char>, i: int, j: int)
    requires
        is_name_stretch(url, i, j),
    ensures
        filename_of(url) == (if i < j {
            url.subrange(i, j)
        } else {
            FALLBACK_FILENAME@
        }),
{
    lemma_after_last_index(url, '/');
    let a = after_last_index(url, '/');
    if a < i {
        assert(url[i - 1] == '/');
    }
    if a > i {
        assert(url[a - 1] == '/');
    }
    assert(a == i);
    let seg = last_segment(url);
    lemma_first_index(seg, '?');
    let q = first_index(seg, '?');
    if q < j - i {
        assert(seg[q] == url[i + q]);
    }
    if q > j - i {
        assert(seg[j - i] == url[j]);
    }
    assert(q == j - i);
    assert(seg.subrange(0, q) =~= url.subrange(i, j));
}

/// Every URL has such a stretch, so the name is always `download` or a
/// piece of the URL as it stands.
pub proof fn lemma_filename_stretch_exists(url: Seq<char>)
    ensures
        exists|i: int, j: int|
            #[trigger] is_name_stretch(url, i, j) && filename_of(url) == (if i < j {
                url.subrange(i, j)
            } else {
                FALLBACK_FILENAME@
            }),
{
    lemma_after_last_index(url, '/');
    let i = after_last_index(url, '/');
    let seg = last_segment(url);
    lemma_first_index(seg, '?');
    let j = i + first_index(seg, '?');
    assert forall|k: int| i <= k < j implies url[k] != '?' by {
        assert(seg[k - i] == url[k]);
    }
    if j < url.len() {
        assert(seg[j - i] == url[j]);
    }
    assert(is_name_stretch(url, i, j));
    lemma_filename_is_url_slice(url, i, j);
}

/// The number of chunks is the largest count, up to `max_chunks`, whose
/// chunks would each hold at least `MIN_CHUNK_SIZE` bytes; it is one when
/// no such count exists, and never more than `max_chunks` when that is
/// positive.
pub proof fn lemma_chunk_count_is_largest(total: nat, max_chunks: nat, m: nat)
    ensures
        chunk_count(total, max_chunks) >= 1,
        max_chunks >= 1 ==> chunk_count(total, max_chunks) <= max_chunks,
        total >= MIN_CHUNK_SIZE ==> chunk_count(total, max_chunks) * MIN_CHUNK_SIZE <= total,
        total < MIN_CHUNK_SIZE ==> chunk_count(total, max_chunks) == 1,
        1 <= m <= max_chunks && m * MIN_CHUNK_SIZE <= total ==> m <= chunk_count(
            total,
            max_chunks,
        ),
{
    let n = chunk_count(total, max_chunks);
    let z = MIN_CHUNK_SIZE as nat;
    let by_size = total / z;
    assert(by_size * z <= total) by (nonlinear_arith)
        requires
            by_size == total / z,
            z > 0,
    ;
    if total < z {
        assert(by_size == 0) by (nonlinear_arith)
            requires
                by_size == total / z,
                total < z,
                z > 0,
        ;
    }
    if total >= z {
        assert(by_size >= 1) by (nonlinear_arith)
            requires
                by_size == total / z,
                total >= z,
                z > 0,
        ;
        assert(n * z <= total) by (nonlinear_arith)
            requires
                n <= by_size,
                by_size * z <= total,
                z > 0,
        ;
    }
    if 1 <= m <= max_chunks && m * z <= total {
        assert(m <= by_size) by (nonlinear_arith)
            requires
                m * z <= total,
                by_size == total / z,
                z > 0,
        ;
    }
}

/// A server that allows ranges gets parallel chunks for every file of at
/// least `MIN_CHUNK_SIZE` bytes, whatever its size beyond that, and one
/// request for a smaller file; without ranges there is one request.
pub proof fn lemma_strategy_by_size(total: u64)
    ensures
        total >= MIN_CHUNK_SIZE ==> strategy_for(Some(total)) == (Strategy::Parallel {
            total_size: total,
        }),
        total < MIN_CHUNK_SIZE ==> strategy_for(Some(total)) == Strategy::Single,
        strategy_for(None) == Strategy::Single,
{
}

} // verus!

verus! {

/// The running count of a download whose bytes arrive in pieces: which
/// download it is, its size if known, and the bytes written so far.
#[derive(Debug)]
pub struct ByteCounter {
    pub id: usize,
    pub total: Option<u64>,
    pub written: u64,
}

impl ByteCounter {
    /// A count of download `id` of size `total` with nothing written yet.
    pub fn new(id: usize, total: Option<u64>) -> (c: ByteCounter)
        ensures
            c.id == id,
            c.total == total,
            c.written == 0,
    {
        ByteCounter { id, total, written: 0 }
    }

    /// Counts `n` more bytes written and gives the progress report to send:
    /// the new total written, with the size if known.
    pub fn record(&mut self, n: u64) -> (p: DownloadProgress)
        requires
            old(self).written + n <= u64::MAX,
        ensures
            final(self).id == old(self).id,
            final(self).total == old(self).total,
            final(self).written == old(self).written + n,
            p@ == (ProgressView::Progress {
                id: old(self).id,
                downloaded: (old(self).written + n) as u64,
                total: old(self).total,
            }),
    {
        self.written = self.written + n;
        DownloadProgress::Progress { id: self.id, downloaded: self.written, total: self.total }
    }

    /// The report that the download is complete and saved at `filepath`,
    /// with every byte written.
    pub fn completed(&self, filepath: String) -> (p: DownloadProgress)
        ensures
            p@ == (ProgressView::Completed {
                id: self.id,
                filepath: filepath@,
                total_bytes: self.written,
            }),
    {
        DownloadProgress::Completed { id: self.id, filepath, total_bytes: self.written }
    }
}

} // verus!

use oniondownoda::downloader::{
    candidate_filename, chunk_file_name, download_strategy, extract_filename, plan_chunks,
    range_header, range_support, split_extension, status_is_success, temp_dir_name, ByteCounter,
    DownloadProgress, Strategy,
    MIN_CHUNK_SIZE,
};

#[test]
fn filename_from_plain_url() {
    assert_eq!(extract_filename("http://example.onion/file.zip"), "file.zip");
}

#[test]
fn filename_drops_query() {
    assert_eq!(extract_filename("http://example.onion/dir/movie.mp4?token=abc&x=1"), "movie.mp4");
}

#[test]
fn filename_falls_back_on_trailing_slash() {
    assert_eq!(extract_filename("http://example.onion/"), "download");
    assert_eq!(extract_filename(""), "download");
    assert_eq!(extract_filename("http://example.onion/?q=1"), "download");
}

#[test]
fn filename_without_slash_is_whole_text() {
    assert_eq!(extract_filename("archive.tar.gz"), "archive.tar.gz");
}

#[test]
fn filename_uses_segment_after_last_slash_even_in_query() {
    assert_eq!(extract_filename("http://x.onion/a?b=c/d.txt"), "d.txt");
}

#[test]
fn filename_keeps_non_ascii() {
    assert_eq!(extract_filename("http://x.onion/файл.pdf"), "файл.pdf");
}

#[test]
fn extension_split_at_last_dot() {
    assert_eq!(split_extension("archive.tar.gz"), ("archive.tar".to_string(), ".gz".to_string()));
    assert_eq!(split_extension("README"), ("README".to_string(), String::new()));
    assert_eq!(split_extension(".hidden"), (String::new(), ".hidden".to_string()));
}

#[test]
fn candidate_names_count_up() {
    assert_eq!(candidate_filename("file.zip", 0), "file.zip");
    assert_eq!(candidate_filename("file.zip", 1), "file (1).zip");
    assert_eq!(candidate_filename("file.zip", 12), "file (12).zip");
    assert_eq!(candidate_filename("archive.tar.gz", 2), "archive.tar (2).gz");
    assert_eq!(candidate_filename("README", 3), "README (3)");
    assert_eq!(candidate_filename(".hidden", 1), " (1).hidden");
}

#[test]
fn candidate_names_are_distinct() {
    let names: Vec<String> = (0..200).map(|i| candidate_filename("data.bin", i)).collect();
    for i in 0..names.len() {
        for j in (i + 1)..names.len() {
            assert_ne!(names[i], names[j]);
        }
    }
}

#[test]
fn success_statuses() {
    assert!(status_is_success(200));
    assert!(status_is_success(206));
    assert!(status_is_success(299));
    assert!(!status_is_success(199));
    assert!(!status_is_success(300));
    assert!(!status_is_success(404));
}

#[test]
fn ranges_need_success_header_and_length() {
    assert_eq!(range_support(200, Some("bytes"), Some(4096)), Some(4096));
    assert_eq!(range_support(200, Some("BYTES"), Some(4096)), Some(4096));
    assert_eq!(range_support(206, Some("none, Bytes"), Some(7)), Some(7));
    assert_eq!(range_support(200, Some("none"), Some(4096)), None);
    assert_eq!(range_support(200, None, Some(4096)), None);
    assert_eq!(range_support(200, Some("bytes"), None), None);
    assert_eq!(range_support(404, Some("bytes"), Some(4096)), None);
}

#[test]
fn strategy_by_size() {
    assert_eq!(download_strategy(None), Strategy::Single);
    assert_eq!(download_strategy(Some(MIN_CHUNK_SIZE - 1)), Strategy::Single);
    assert_eq!(
        download_strategy(Some(MIN_CHUNK_SIZE)),
        Strategy::Parallel { total_size: MIN_CHUNK_SIZE }
    );
}

#[test]
fn chunks_of_whole_mebibytes() {
    let m = MIN_CHUNK_SIZE;
    let chunks = plan_chunks(5 * m, 100);
    assert_eq!(chunks.len(), 5);
    for (i, (s, e)) in chunks.iter().enumerate() {
        assert_eq!(*s, i as u64 * m);
        assert_eq!(*e, (i as u64 + 1) * m - 1);
    }
}

#[test]
fn last_chunk_takes_the_rest() {
    let m = MIN_CHUNK_SIZE;
    let total = 3 * m + m / 2;
    let chunks = plan_chunks(total, 100);
    let size = total / 3;
    assert_eq!(chunks, vec![(0, size - 1), (size, 2 * size - 1), (2 * size, total - 1)]);
}

#[test]
fn chunk_count_is_capped() {
    let m = MIN_CHUNK_SIZE;
    let chunks = plan_chunks(10 * m, 4);
    assert_eq!(chunks.len(), 4);
    assert_eq!(chunks[0].0, 0);
    assert_eq!(chunks[3].1, 10 * m - 1);
    for w in chunks.windows(2) {
        assert_eq!(w[1].0, w[0].1 + 1);
    }
}

#[test]
fn small_file_is_one_chunk() {
    assert_eq!(plan_chunks(10, 100), vec![(0, 9)]);
    assert_eq!(plan_chunks(1, 0), vec![(0, 0)]);
    assert_eq!(plan_chunks(5 * MIN_CHUNK_SIZE, 0), vec![(0, 5 * MIN_CHUNK_SIZE - 1)]);
}

#[test]
fn temp_dir_and_chunk_names() {
    assert_eq!(temp_dir_name(3, "a.b.zip"), ".tmp_3_a_b_zip");
    assert_eq!(temp_dir_name(0, "plain"), ".tmp_0_plain");
    assert_eq!(chunk_file_name(7), "chunk_7");
    assert_eq!(chunk_file_name(12), "chunk_12");
}

#[test]
fn range_header_values() {
    assert_eq!(range_header(0, 1048575), "bytes=0-1048575");
    assert_eq!(range_header(1048576, 2097151), "bytes=1048576-2097151");
}

#[test]
fn byte_counter_reports() {
    let mut c = ByteCounter::new(3, Some(100));
    match c.record(40) {
        DownloadProgress::Progress { id, downloaded, total } => {
            assert_eq!((id, downloaded, total), (3, 40, Some(100)));
        }
        other => panic!("{:?}", other),
    }
    match c.record(60) {
        DownloadProgress::Progress { downloaded, .. } => assert_eq!(downloaded, 100),
        other => panic!("{:?}", other),
    }
    match c.completed("out/x".to_string()) {
        DownloadProgress::Completed { id, filepath, total_bytes } => {
            assert_eq!((id, filepath.as_str(), total_bytes), (3, "out/x", 100));
        }
        other => panic!("{:?}", other),
    }
}

use rust_expect::expect::large_buffer::{
    chunk_len, consume_len, read_extent, spills, tail_start, ChunkSearch, SearchStart, CHUNK_SIZE,
    MMAP_THRESHOLD,
};

fn search_in_chunks(needle: &[u8], chunks: &[&[u8]]) -> Option<usize> {
    let size: usize = chunks.iter().map(|c| c.len()).sum();
    match ChunkSearch::begin(needle, size) {
        SearchStart::Found(p) => Some(p),
        SearchStart::Absent => None,
        SearchStart::Search(mut s) => {
            for c in chunks {
                if let Some(p) = s.step(c) {
                    return Some(p);
                }
            }
            None
        }
    }
}

#[test]
fn chunked_search_finds_within_one_chunk() {
    assert_eq!(search_in_chunks(b"quick", &[b"the quick brown fox"]), Some(4));
    assert_eq!(search_in_chunks(b"lazy", &[b"the quick brown fox"]), None);
}

#[test]
fn chunked_search_finds_across_chunks() {
    assert_eq!(search_in_chunks(b"quick", &[b"the qu", b"ick brown fox"]), Some(4));
    assert_eq!(search_in_chunks(b"fox", &[b"the quick ", b"brown ", b"fox"]), Some(16));
}

#[test]
fn chunked_search_reports_the_first_occurrence() {
    assert_eq!(search_in_chunks(b"ab", &[b"xxa", b"bxab"]), Some(2));
}

#[test]
fn chunked_search_start_cases() {
    assert!(matches!(ChunkSearch::begin(b"", 0), SearchStart::Found(0)));
    assert!(matches!(ChunkSearch::begin(b"long", 3), SearchStart::Absent));
    match ChunkSearch::begin(b"ok", 5) {
        SearchStart::Search(s) => assert_eq!(s.pos(), 0),
        _ => panic!("expected a search"),
    }
}

#[test]
fn chunked_search_tracks_position() {
    match ChunkSearch::begin(b"zz", 10) {
        SearchStart::Search(mut s) => {
            assert_eq!(s.step(b"abcd"), None);
            assert_eq!(s.pos(), 4);
            assert_eq!(s.step(b"efgh"), None);
            assert_eq!(s.pos(), 8);
        }
        _ => panic!("expected a search"),
    }
}

#[test]
fn extents_of_reads() {
    assert_eq!(read_extent(11, 0, 11), 11);
    assert_eq!(read_extent(11, 6, 100), 5);
    assert_eq!(read_extent(11, 11, 3), 0);
    assert_eq!(tail_start(11, 5), 6);
    assert_eq!(tail_start(3, 5), 0);
    assert_eq!(consume_len(11, 6), 6);
    assert_eq!(consume_len(4, 6), 4);
    assert_eq!(chunk_len(10, 4), 6);
    assert_eq!(chunk_len(CHUNK_SIZE * 2, 0), CHUNK_SIZE);
}

#[test]
fn spilling_to_a_file() {
    assert!(!spills(0, 10, MMAP_THRESHOLD));
    assert!(spills(0, 150, 100));
    assert!(!spills(50, 50, 100));
    assert!(spills(50, 51, 100));
}

use chunking_reader::lines::{find_first_newline, find_last_newline, NEWLINE};
use chunking_reader::reader::{
    ChunkingReader, Emission, Phase, Route, HEADER_LINE_LENGTH, READ_BUFFER_SIZE,
};
use chunking_reader::stream::chunk_reads;

fn record(fill: u8) -> Vec<u8> {
    let mut line = vec![fill; HEADER_LINE_LENGTH];
    line.push(b'\n');
    line
}

fn joined(parts: &[Vec<u8>]) -> Vec<u8> {
    let mut all = Vec::new();
    for p in parts {
        all.extend_from_slice(p);
    }
    all
}

fn payloads(emitted: &[Emission]) -> Vec<Vec<u8>> {
    emitted.iter().map(|e| e.chunk.payload.clone()).collect()
}

fn routes(emitted: &[Emission]) -> Vec<Route> {
    emitted.iter().map(|e| e.route).collect()
}

fn indices(emitted: &[Emission]) -> Vec<usize> {
    emitted.iter().map(|e| e.chunk.index).collect()
}

#[test]
fn constants_have_their_values() {
    assert_eq!(READ_BUFFER_SIZE, 65536);
    assert_eq!(HEADER_LINE_LENGTH, 81);
    assert_eq!(NEWLINE, b'\n');
}

#[test]
fn first_newline_is_found() {
    assert_eq!(find_first_newline(b"ab\ncd\nef"), Some(2));
    assert_eq!(find_first_newline(b"\n"), Some(0));
    assert_eq!(find_first_newline(b"abc"), None);
    assert_eq!(find_first_newline(b""), None);
}

#[test]
fn last_newline_is_found() {
    assert_eq!(find_last_newline(b"ab\ncd\nef"), Some(5));
    assert_eq!(find_last_newline(b"ab\n"), Some(2));
    assert_eq!(find_last_newline(b"abc"), None);
    assert_eq!(find_last_newline(b""), None);
}

#[test]
fn new_reader_is_at_start() {
    let r = ChunkingReader::new();
    assert_eq!(r.phase(), Phase::Start);
    assert_eq!(r.next_index(), 0);
    assert_eq!(r.pending(), 0);
    assert!(r.is_running());
}

#[test]
fn empty_input_emits_nothing() {
    let out = chunk_reads(&Vec::new());
    assert!(out.is_empty());

    let mut r = ChunkingReader::new();
    assert_eq!(r.accept(&[]), None);
    assert_eq!(r.phase(), Phase::Done);
    assert_eq!(r.next_index(), 0);
    assert!(!r.is_running());
}

#[test]
fn header_is_set_apart() {
    let mut first = b"NAME,VALUE\n".to_vec();
    first.extend_from_slice(&record(b'a'));
    first.extend_from_slice(b"part");
    let second = b"ial\nrest".to_vec();
    let out = chunk_reads(&vec![first.clone(), second.clone()]);

    assert_eq!(routes(&out), vec![Route::Header, Route::Body, Route::Body]);
    assert_eq!(indices(&out), vec![0, 1, 2]);
    assert_eq!(out[0].chunk.payload, b"NAME,VALUE\n".to_vec());
    let mut body = record(b'a');
    body.extend_from_slice(b"partial\n");
    assert_eq!(out[1].chunk.payload, body);
    assert_eq!(out[2].chunk.payload, b"rest".to_vec());
}

#[test]
fn record_line_is_no_header() {
    let mut first = record(b'x');
    first.extend_from_slice(&record(b'y'));
    let second = record(b'z');
    let out = chunk_reads(&vec![first.clone(), second.clone()]);

    assert_eq!(routes(&out), vec![Route::Body]);
    assert_eq!(indices(&out), vec![0]);
    assert_eq!(out[0].chunk.payload, joined(&[first, second]));
}

#[test]
fn record_line_alone_leaves_as_last_chunk() {
    let first = record(b'x');
    let out = chunk_reads(&vec![first.clone()]);
    assert_eq!(routes(&out), vec![Route::Body]);
    assert_eq!(indices(&out), vec![0]);
    assert_eq!(out[0].chunk.payload, first);
}

#[test]
fn first_line_one_byte_short_is_a_header() {
    let mut first = vec![b'x'; HEADER_LINE_LENGTH - 1];
    first.push(b'\n');
    first.extend_from_slice(b"tail\n");
    let out = chunk_reads(&vec![first.clone()]);
    assert_eq!(routes(&out), vec![Route::Header, Route::Body]);
    assert_eq!(out[0].chunk.payload, first[..HEADER_LINE_LENGTH].to_vec());
    assert_eq!(out[1].chunk.payload, b"tail\n".to_vec());
}

#[test]
fn first_line_one_byte_long_is_a_header() {
    let mut first = vec![b'x'; HEADER_LINE_LENGTH + 1];
    first.push(b'\n');
    let out = chunk_reads(&vec![first.clone()]);
    assert_eq!(routes(&out), vec![Route::Header]);
    assert_eq!(indices(&out), vec![0]);
    assert_eq!(out[0].chunk.payload, first);
}

#[test]
fn first_read_without_newline_is_taken_as_header() {
    let out = chunk_reads(&vec![b"abc".to_vec(), b"def\n".to_vec()]);
    assert_eq!(routes(&out), vec![Route::Header, Route::Body]);
    assert_eq!(indices(&out), vec![0, 1]);
    assert_eq!(payloads(&out), vec![b"abc".to_vec(), b"def\n".to_vec()]);
}

#[test]
fn first_read_of_record_length_without_newline_is_body() {
    let first = vec![b'q'; HEADER_LINE_LENGTH];
    let out = chunk_reads(&vec![first.clone(), b"\nnext".to_vec()]);
    assert_eq!(routes(&out), vec![Route::Body, Route::Body]);
    assert_eq!(indices(&out), vec![0, 1]);
    let mut line = first;
    line.push(b'\n');
    assert_eq!(payloads(&out), vec![line, b"next".to_vec()]);
}

#[test]
fn large_single_line_waits_for_its_newline() {
    let mut r = ChunkingReader::new();
    let header = r.accept(b"H\n").expect("a header");
    assert_eq!(header.route, Route::Header);
    assert_eq!(header.chunk.index, 0);
    assert_eq!(header.chunk.payload, b"H\n".to_vec());

    let a = vec![b'a'; READ_BUFFER_SIZE];
    let b = vec![b'b'; READ_BUFFER_SIZE];
    assert_eq!(r.accept(&a), None);
    assert_eq!(r.pending(), READ_BUFFER_SIZE);
    assert_eq!(r.next_index(), 1);
    assert_eq!(r.accept(&b), None);
    assert_eq!(r.pending(), 2 * READ_BUFFER_SIZE);
    assert_eq!(r.next_index(), 1);

    let line = r.accept(b"c\nd").expect("the long line");
    assert_eq!(line.route, Route::Body);
    assert_eq!(line.chunk.index, 1);
    assert_eq!(line.chunk.payload.len(), 2 * READ_BUFFER_SIZE + 2);
    assert_eq!(line.chunk.payload, joined(&[a, b, b"c\n".to_vec()]));
    assert_eq!(r.pending(), 1);

    let last = r.accept(&[]).expect("the tail");
    assert_eq!(last.chunk.index, 2);
    assert_eq!(last.chunk.payload, b"d".to_vec());
    assert_eq!(r.phase(), Phase::Done);
    assert_eq!(r.pending(), 0);
    assert_eq!(r.next_index(), 3);
}

#[test]
fn trailing_data_without_newline_is_the_last_chunk() {
    let reads = vec![b"hd\nl1\nl".to_vec(), b"2\nl3\nunfinished".to_vec()];
    let out = chunk_reads(&reads);
    assert_eq!(
        payloads(&out),
        vec![b"hd\n".to_vec(), b"l1\nl2\nl3\n".to_vec(), b"unfinished".to_vec()]
    );
    let (last, rest) = out.split_last().unwrap();
    assert_ne!(last.chunk.payload.last(), Some(&b'\n'));
    for e in rest {
        assert_eq!(e.chunk.payload.last(), Some(&b'\n'));
    }
}

#[test]
fn stream_ending_in_newline_leaves_no_tail() {
    let reads = vec![b"hd\nl1\n".to_vec(), b"l2\n".to_vec()];
    let out = chunk_reads(&reads);
    assert_eq!(payloads(&out), vec![b"hd\n".to_vec(), b"l1\nl2\n".to_vec()]);
    assert_eq!(indices(&out), vec![0, 1]);
}

#[test]
fn payloads_rebuild_the_stream() {
    let reads = vec![
        b"head\nfirst li".to_vec(),
        b"ne\nsecond".to_vec(),
        b" line".to_vec(),
        b"\n\n\nthird\nfour".to_vec(),
        b"th".to_vec(),
    ];
    let out = chunk_reads(&reads);
    assert_eq!(joined(&payloads(&out)), joined(&reads));
    assert_eq!(indices(&out), (0..out.len()).collect::<Vec<usize>>());
    assert_eq!(
        payloads(&out),
        vec![
            b"head\n".to_vec(),
            b"first line\n".to_vec(),
            b"second line\n\n\nthird\n".to_vec(),
            b"fourth".to_vec(),
        ]
    );
    for e in &out {
        assert!(!e.chunk.payload.is_empty());
    }
}

#[test]
fn read_without_newline_emits_nothing() {
    let mut r = ChunkingReader::new();
    assert!(r.accept(b"h\nab").is_some());
    assert_eq!(r.accept(b"cd"), None);
    assert_eq!(r.pending(), 4);
    assert_eq!(r.phase(), Phase::Body);
}

#[test]
fn failure_drops_the_carry_over() {
    let mut r = ChunkingReader::new();
    assert!(r.accept(b"h\npending").is_some());
    assert_eq!(r.pending(), 7);
    r.fail();
    assert_eq!(r.phase(), Phase::Failed);
    assert_eq!(r.pending(), 0);
    assert_eq!(r.next_index(), 1);
    assert!(!r.is_running());
    assert_eq!(r.accept(b"more\n"), None);
    assert_eq!(r.accept(&[]), None);
    assert_eq!(r.phase(), Phase::Failed);
}

#[test]
fn nothing_is_taken_after_the_end() {
    let mut r = ChunkingReader::new();
    assert!(r.accept(b"h\n").is_some());
    assert_eq!(r.accept(&[]), None);
    assert_eq!(r.phase(), Phase::Done);
    assert_eq!(r.accept(b"late\n"), None);
    assert_eq!(r.phase(), Phase::Done);
    assert_eq!(r.pending(), 0);
    assert_eq!(r.next_index(), 1);
}

#[test]
fn chunks_hold_whole_lines() {
    let reads = vec![
        b"head\nfirst li".to_vec(),
        b"ne\nsecond".to_vec(),
        b" line\n\nthird\nfour".to_vec(),
        b"th\nfif".to_vec(),
    ];
    let out = chunk_reads(&reads);
    assert_eq!(out.len(), 5);
    let (_, whole) = out.split_last().unwrap();
    for e in whole {
        let payload = &e.chunk.payload;
        assert_eq!(payload.last(), Some(&b'\n'));
        let newlines = payload.iter().filter(|b| **b == b'\n').count();
        let mut lines: Vec<&[u8]> = payload.split(|b| *b == b'\n').collect();
        assert_eq!(lines.pop(), Some(&b""[..]));
        assert_eq!(lines.len(), newlines);
        let content: usize = lines.iter().map(|l| l.len()).sum();
        assert_eq!(payload.len() - newlines, content);
    }
    assert_eq!(out[4].chunk.payload, b"fif".to_vec());
}

#[test]
fn an_empty_read_ends_the_run() {
    let reads = vec![b"h\nab".to_vec(), Vec::new(), b"late\n".to_vec()];
    let out = chunk_reads(&reads);
    assert_eq!(payloads(&out), vec![b"h\n".to_vec(), b"ab".to_vec()]);
    assert_eq!(indices(&out), vec![0, 1]);
}

use table_digest::stream_digest::{digest_chunks, ReadOutcome, StreamDigest, CHUNK_SIZE};

#[test]
fn one_chunk_or_many_small_ones() {
    let data: Vec<u8> = (0..5000u32).map(|i| (i % 251) as u8).collect();
    let whole = digest_chunks(&vec![data.clone()]);
    for size in [1usize, 2, 7, 64, 1024, 4999, 5000] {
        let chunks: Vec<Vec<u8>> = data.chunks(size).map(|c| c.to_vec()).collect();
        assert_eq!(digest_chunks(&chunks), whole);
    }
    assert_eq!(whole, blake3::hash(&data).to_hex().to_string());
}

#[test]
fn empty_chunks_change_nothing() {
    let a = digest_chunks(&vec![b"ab".to_vec(), Vec::new(), b"c".to_vec()]);
    let b = digest_chunks(&vec![b"abc".to_vec()]);
    assert_eq!(a, b);
    assert_eq!(digest_chunks(&Vec::new()), blake3::hash(b"").to_hex().to_string());
    assert_eq!(
        digest_chunks(&Vec::new()),
        "af1349b9f5f9a1a6a0404dea36dcc9499bcb25c9adc112b7cc9a93cae41f3262"
    );
}

#[test]
fn stream_digest_depends_on_order() {
    let table = digest_chunks(&vec![b"1".to_vec(), b"2".to_vec(), b"3".to_vec()]);
    let replica = digest_chunks(&vec![b"3".to_vec(), b"1".to_vec(), b"2".to_vec()]);
    assert_ne!(table, replica);
    assert_eq!(table, "b3d4f8803f7e24b8f389b072e75477cdbcfbe074080fb5e500e53e26e054158e");
}

#[test]
fn engine_counts_and_digests() {
    let mut engine = StreamDigest::new();
    assert_eq!(engine.bytes_streamed(), 0);
    engine.update(b"hello ");
    engine.update(b"world");
    assert_eq!(engine.bytes_streamed(), 11);
    assert_eq!(engine.finish(), blake3::hash(b"hello world").to_hex().to_string());
    engine.update(b"!");
    assert_eq!(engine.finish(), blake3::hash(b"hello world!").to_hex().to_string());
}

#[test]
fn reads_drive_the_engine() {
    let mut engine = StreamDigest::new();
    let mut buf = vec![0u8; 8];
    buf[..3].copy_from_slice(b"abc");
    assert!(engine.on_read(&buf, ReadOutcome::Read(3)));
    buf[..2].copy_from_slice(b"de");
    assert!(engine.on_read(&buf, ReadOutcome::Read(2)));
    assert!(!engine.on_read(&buf, ReadOutcome::Read(0)));
    assert_eq!(engine.bytes_streamed(), 5);
    assert_eq!(engine.finish(), blake3::hash(b"abcde").to_hex().to_string());
}

#[test]
fn failed_read_ends_the_scan() {
    let mut engine = StreamDigest::new();
    let buf = *b"abcdefgh";
    assert!(engine.on_read(&buf, ReadOutcome::Read(8)));
    assert!(!engine.on_read(&buf, ReadOutcome::Failed));
    assert_eq!(engine.bytes_streamed(), 8);
    assert_eq!(engine.finish(), blake3::hash(b"abcdefgh").to_hex().to_string());
}

#[test]
fn chunk_size_is_one_mib() {
    assert_eq!(CHUNK_SIZE, 1 << 20);
}

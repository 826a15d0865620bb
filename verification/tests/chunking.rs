use drop_backend::chunks::{chunk_matches, FileTransfer, CHUNK_SIZE};

const MIB: usize = 1024 * 1024;

#[test]
fn test_prepare_metadata_single_chunk() {
    let mut ft = FileTransfer::new("greeting.txt".to_string(), b"abc".to_vec());
    let meta = ft.prepare_metadata();
    assert_eq!(meta.name, "greeting.txt");
    assert_eq!(meta.size, 3);
    assert_eq!(meta.chunks.len(), 1);
    assert_eq!(meta.chunks[0].index, 0);
    assert_eq!(meta.chunks[0].size, 3);
    // SHA-256 of "abc", the classic test vector.
    assert_eq!(
        meta.hash,
        "ba7816bf8f01cfea414140de5dae2223b00361a396177a9cb410ff61f20015ad"
    );
    // A single chunk holds the whole file, so the digests coincide.
    assert_eq!(meta.chunks[0].hash, meta.hash);
    // The manifest is kept for later verification.
    assert!(ft.get_metadata().is_some());
    assert_eq!(ft.get_metadata().unwrap().hash, meta.hash);
}

#[test]
fn test_prepare_metadata_empty_file() {
    let mut ft = FileTransfer::new("empty".to_string(), Vec::new());
    let meta = ft.prepare_metadata();
    assert_eq!(meta.size, 0);
    assert_eq!(meta.chunks.len(), 0);
    // SHA-256 of the empty input.
    assert_eq!(
        meta.hash,
        "e3b0c44298fc1c149afbf4c8996fb92427ae41e4649b934ca495991b7852b855"
    );
}

#[test]
fn test_single_byte_vector() {
    let mut ft = FileTransfer::new("a".to_string(), b"a".to_vec());
    let meta = ft.prepare_metadata();
    assert_eq!(
        meta.hash,
        "ca978112ca1bbdcafac231b39a23dc4da786eff8147c4e72b9807785afee48bb"
    );
}

fn patterned(len: usize) -> Vec<u8> {
    (0..len).map(|i| (i % 251) as u8).collect()
}

#[test]
fn test_two_and_a_half_mib_layout() {
    // 2.5 MiB at the default 1 MiB chunk size: exactly three chunks of
    // 1 MiB, 1 MiB and 0.5 MiB.
    let data = patterned(2 * MIB + MIB / 2);
    let mut ft = FileTransfer::new("big.bin".to_string(), data);
    let meta = ft.prepare_metadata();
    assert_eq!(meta.size as usize, 2 * MIB + MIB / 2);
    assert_eq!(meta.chunks.len(), 3);
    assert_eq!(meta.chunks[0].size as usize, MIB);
    assert_eq!(meta.chunks[1].size as usize, MIB);
    assert_eq!(meta.chunks[2].size as usize, MIB / 2);
    assert_eq!(CHUNK_SIZE, MIB);
}

#[test]
fn test_corrupt_middle_chunk_fails_alone() {
    let data = patterned(2 * MIB + MIB / 2);
    let mut ft = FileTransfer::new("big.bin".to_string(), data);
    let meta = ft.prepare_metadata();

    let chunk0 = ft.read_chunk(0);
    let mut chunk1 = ft.read_chunk(1);
    let chunk2 = ft.read_chunk(2);

    // Corrupt one byte in the middle of the middle chunk.
    chunk1[MIB / 2] = chunk1[MIB / 2].wrapping_add(1);

    assert!(chunk_matches(&chunk0, &meta.chunks[0]));
    assert!(!chunk_matches(&chunk1, &meta.chunks[1]));
    assert!(chunk_matches(&chunk2, &meta.chunks[2]));
}

#[test]
fn test_read_chunks_concat_reproduces_content() {
    let data: Vec<u8> = b"the quick brown fox jumps over the lazy dog".to_vec();
    let mut ft = FileTransfer::with_chunk_size("fox".to_string(), data.clone(), 5);
    let meta = ft.prepare_metadata();
    assert_eq!(meta.chunks.len(), 9); // ceil(43 / 5)

    let mut reassembled: Vec<u8> = Vec::new();
    for i in 0..meta.chunks.len() {
        let mut piece = ft.read_chunk(i as u32);
        assert_eq!(piece.len() as u64, meta.chunks[i].size);
        reassembled.append(&mut piece);
    }
    assert_eq!(reassembled, data);

    // Past the end, a read yields no bytes rather than an error.
    assert!(ft.read_chunk(meta.chunks.len() as u32).is_empty());
    assert!(ft.read_chunk(1000).is_empty());
}

#[test]
fn test_every_chunk_digest_matches_manifest() {
    let data = patterned(3 * 1024 + 17);
    let mut ft = FileTransfer::with_chunk_size("p".to_string(), data, 1024);
    let meta = ft.prepare_metadata();
    assert_eq!(meta.chunks.len(), 4);
    for i in 0..meta.chunks.len() {
        let piece = ft.read_chunk(i as u32);
        assert!(chunk_matches(&piece, &meta.chunks[i]));
    }
}

#[test]
fn test_whole_file_digest_equals_digest_of_concat() {
    let data = patterned(7 * 64 + 3);
    let mut ft = FileTransfer::with_chunk_size("q".to_string(), data, 64);
    let meta = ft.prepare_metadata();

    let mut concat: Vec<u8> = Vec::new();
    for i in 0..meta.chunks.len() {
        concat.append(&mut ft.read_chunk(i as u32));
    }
    // Hash the concatenation independently: it carries the same digest the
    // manifest recorded for the whole file.
    let mut again = FileTransfer::with_chunk_size("q".to_string(), concat, 64);
    let meta2 = again.prepare_metadata();
    assert_eq!(meta2.hash, meta.hash);
}

#[test]
fn test_write_chunks_out_of_order() {
    let data: Vec<u8> = b"0123456789abcdef".to_vec();
    let mut src = FileTransfer::with_chunk_size("s".to_string(), data.clone(), 4);
    let meta = src.prepare_metadata();

    let mut dst = FileTransfer::with_chunk_size("s".to_string(), Vec::new(), 4);
    let order = [2u32, 0, 3, 1];
    for &i in order.iter() {
        let piece = src.read_chunk(i);
        dst.write_chunk(i, piece);
    }
    assert_eq!(dst.content(), &data);
    assert_eq!(meta.size as usize, dst.content().len());
}

#[test]
fn test_write_chunk_preserves_neighbours() {
    let mut dst = FileTransfer::with_chunk_size("d".to_string(), Vec::new(), 4);
    dst.write_chunk(0, b"AAAA".to_vec());
    dst.write_chunk(2, b"CC".to_vec());
    // The gap where chunk 1 would sit is zero-filled, not truncated.
    assert_eq!(dst.content(), &vec![b'A', b'A', b'A', b'A', 0, 0, 0, 0, b'C', b'C']);
    // Writing chunk 1 afterwards erases nothing around it.
    dst.write_chunk(1, b"BBBB".to_vec());
    assert_eq!(dst.content(), b"AAAABBBBCC");
    // Rewriting the same chunk with the same bytes changes nothing.
    dst.write_chunk(1, b"BBBB".to_vec());
    assert_eq!(dst.content(), b"AAAABBBBCC");
}

#[test]
fn test_progress_is_monotone_and_bounded() {
    let data = patterned(100);
    let mut ft = FileTransfer::with_chunk_size("p".to_string(), data, 30);
    assert_eq!(ft.progress(), 0);
    let mut last = 0u64;
    for i in 0..4u32 {
        ft.read_chunk(i);
        let p = ft.progress();
        assert!(p >= last);
        assert!(p <= 100);
        last = p;
    }
    assert_eq!(ft.progress(), 100);
    // Re-reading keeps the signal capped at the total size.
    ft.read_chunk(0);
    assert_eq!(ft.progress(), 100);
}

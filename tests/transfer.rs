use turent::transfer::{split_into_chunks, File, CHUNK_SIZE};

fn pattern(len: usize) -> Vec<u8> {
    (0..len).map(|i| (i % 251) as u8).collect()
}

fn round_trip(len: usize) {
    let data = pattern(len);
    let chunks = File::chunkify(&data);
    assert_eq!(chunks.len(), (len + CHUNK_SIZE - 1) / CHUNK_SIZE);
    for c in &chunks {
        assert!(!c.is_empty() && c.len() <= CHUNK_SIZE);
    }
    let mut file = File::new("downloads".to_string(), "out.bin".to_string());
    for c in &chunks {
        file.append_bytes(c);
    }
    let rebuilt = file.build_file();
    assert_eq!(rebuilt.len(), len);
    assert!(rebuilt == data);
}

#[test]
fn twelve_million_bytes_split_and_rebuilt() {
    let data = pattern(12_000_000);
    let chunks = split_into_chunks(&data);
    let sizes: Vec<usize> = chunks.iter().map(|c| c.len()).collect();
    assert_eq!(sizes, vec![5000000, 5000000, 2000000]);
    let mut file = File::new("downloads".to_string(), "big.bin".to_string());
    for c in &chunks {
        file.append_bytes(c);
    }
    let rebuilt = file.build_file();
    assert_eq!(rebuilt.len(), 12_000_000);
    assert!(rebuilt == data);
}

#[test]
fn round_trip_empty() {
    round_trip(0);
    assert!(File::chunkify(&[]).is_empty());
}

#[test]
fn round_trip_one_byte() {
    round_trip(1);
}

#[test]
fn round_trip_exactly_one_chunk() {
    round_trip(5_000_000);
    assert_eq!(File::chunkify(&pattern(5_000_000)).len(), 1);
}

#[test]
fn round_trip_one_past_a_chunk() {
    round_trip(5_000_001);
    let chunks = File::chunkify(&pattern(5_000_001));
    assert_eq!(chunks.len(), 2);
    assert_eq!(chunks[1], vec![(5_000_000 % 251) as u8]);
}

#[test]
fn round_trip_odd_length() {
    round_trip(12_345_678);
}

#[test]
fn chunks_keep_file_order() {
    let chunks = split_into_chunks(&[1, 2, 3]);
    assert_eq!(chunks, vec![vec![1, 2, 3]]);
}

#[test]
fn appended_bytes_keep_arrival_order() {
    let mut file = File::new("dir".to_string(), "name.txt".to_string());
    assert!(file.build_file().is_empty());
    file.append_bytes(b"abc");
    file.append_bytes(b"");
    file.append_bytes(b"de");
    assert_eq!(file.build_file(), b"abcde".to_vec());
}

#[test]
fn full_path_joins_directory_and_name() {
    let file = File::new("/tmp/files".to_string(), "a.txt".to_string());
    assert_eq!(file.full_path(), "/tmp/files/a.txt");
}

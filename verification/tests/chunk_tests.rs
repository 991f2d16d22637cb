use deskpi::chunking::chunk;

#[test]
fn chunks_cover_buffer_with_short_tail() {
    let buffer: Vec<u8> = (0..10u8).collect();
    let chunks = chunk(&buffer, 4);
    assert_eq!(chunks.len(), 3);
    assert_eq!(chunks[0].offset, 0);
    assert_eq!(chunks[1].offset, 4);
    assert_eq!(chunks[2].offset, 8);
    assert_eq!(chunks[0].payload, vec![0, 1, 2, 3]);
    assert_eq!(chunks[1].payload, vec![4, 5, 6, 7]);
    assert_eq!(chunks[2].payload, vec![8, 9]);
    let mut rebuilt: Vec<u8> = Vec::new();
    for c in &chunks {
        assert_eq!(c.offset, rebuilt.len());
        rebuilt.extend_from_slice(&c.payload);
    }
    assert_eq!(rebuilt, buffer);
}

#[test]
fn chunks_of_exact_multiple_are_all_full() {
    let buffer: Vec<u8> = (0..8u8).collect();
    let chunks = chunk(&buffer, 4);
    assert_eq!(chunks.len(), 2);
    assert_eq!(chunks[0].payload.len(), 4);
    assert_eq!(chunks[1].payload.len(), 4);
}

#[test]
fn empty_buffer_yields_no_chunks() {
    let buffer: Vec<u8> = Vec::new();
    assert_eq!(chunk(&buffer, 16).len(), 0);
}

#[test]
fn chunk_size_one_yields_singletons() {
    let buffer: Vec<u8> = vec![7, 8, 9];
    let chunks = chunk(&buffer, 1);
    assert_eq!(chunks.len(), 3);
    for (i, c) in chunks.iter().enumerate() {
        assert_eq!(c.offset, i);
        assert_eq!(c.payload, vec![buffer[i]]);
    }
}

#[test]
fn chunk_at_restarts_anywhere() {
    let buffer: Vec<u8> = (0..10u8).collect();
    let all = deskpi::chunking::chunk(&buffer, 4);
    for i in 0..all.len() {
        let c = deskpi::chunking::chunk_at(&buffer, 4, i).unwrap();
        assert_eq!(c.offset, all[i].offset);
        assert_eq!(c.payload, all[i].payload);
    }
    assert!(deskpi::chunking::chunk_at(&buffer, 4, 3).is_none());
}

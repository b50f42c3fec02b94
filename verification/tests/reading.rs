use bitmap_copy::io::Write;
use bitmap_copy::BitMap;

fn holding(bytes: &[u8]) -> BitMap {
    let mut bit_map = BitMap::new(1, 1).unwrap();
    bit_map.write(bytes).unwrap();
    bit_map
}

#[test]
fn write_returns_the_full_length() {
    let mut bit_map = BitMap::new(2, 2).unwrap();
    assert_eq!(bit_map.write(&[1, 2, 3]).unwrap(), 3);
    assert_eq!(bit_map.write(&[]).unwrap(), 0);
    assert_eq!(bit_map.write(&[0u8; 1000]).unwrap(), 1000);
}

#[test]
fn write_replaces_the_body_and_keeps_the_dimensions() {
    let mut bit_map = BitMap::new(2, 2).unwrap();
    bit_map.write(&[9, 8, 7, 6, 5, 4, 3]).unwrap();
    assert_eq!(bit_map.iter().copied().collect::<Vec<u8>>(), vec![9, 8, 7, 6, 5, 4, 3]);
    assert_eq!((bit_map.width(), bit_map.height()), (2, 2));
    bit_map.write(&[1]).unwrap();
    assert_eq!(bit_map.iter().copied().collect::<Vec<u8>>(), vec![1]);
}

#[test]
fn write_then_read_round_trip() {
    let buf: Vec<u8> = (0..=255u8).collect();
    let mut bit_map = holding(&buf);
    let mut out = vec![0u8; buf.len()];
    assert_eq!(bit_map.read(&mut out).unwrap(), buf.len());
    assert_eq!(out, buf);
    assert_eq!(bit_map.read(&mut out).unwrap(), 0);
}

#[test]
fn write_then_read_round_trip_in_pieces() {
    let buf: Vec<u8> = (0..100u8).map(|b| b.wrapping_mul(7)).collect();
    let mut bit_map = holding(&buf);
    let mut out = Vec::new();
    let mut piece = [0u8; 7];
    loop {
        let n = bit_map.read(&mut piece).unwrap();
        if n == 0 {
            break;
        }
        out.extend_from_slice(&piece[..n]);
    }
    assert_eq!(out, buf);
}

#[test]
fn read_is_partial_at_the_end() {
    let mut bit_map = holding(&[1, 2, 3]);
    let mut out = [9u8, 9];
    assert_eq!(bit_map.read(&mut out).unwrap(), 2);
    assert_eq!(out, [1, 2]);
    assert_eq!(bit_map.read(&mut out).unwrap(), 1);
    assert_eq!(out, [3, 2]);
    assert_eq!(bit_map.read(&mut out).unwrap(), 0);
    assert_eq!(out, [3, 2]);
}

#[test]
fn read_into_a_larger_buffer_leaves_its_tail() {
    let mut bit_map = holding(&[1, 2, 3]);
    let mut out = [9u8; 5];
    assert_eq!(bit_map.read(&mut out).unwrap(), 3);
    assert_eq!(out, [1, 2, 3, 9, 9]);
}

#[test]
fn read_into_an_empty_buffer_reads_nothing() {
    let mut bit_map = holding(&[1, 2, 3]);
    let mut none: [u8; 0] = [];
    assert_eq!(bit_map.read(&mut none).unwrap(), 0);
    let mut out = [0u8; 3];
    assert_eq!(bit_map.read(&mut out).unwrap(), 3);
    assert_eq!(out, [1, 2, 3]);
}

#[test]
fn read_of_an_empty_body_reads_nothing() {
    let mut bit_map = BitMap::default();
    let mut out = [5u8; 2];
    assert_eq!(bit_map.read(&mut out).unwrap(), 0);
    assert_eq!(out, [5, 5]);
}

#[test]
fn read_leaves_the_body_in_place() {
    let mut bit_map = holding(&[1, 2, 3, 4]);
    let mut out = [0u8; 3];
    bit_map.read(&mut out).unwrap();
    assert_eq!(bit_map.iter().copied().collect::<Vec<u8>>(), vec![1, 2, 3, 4]);
    assert_eq!(bit_map[0], 1);
    assert_eq!(bit_map.next(), Some(4));
    assert_eq!(bit_map.next(), None);
    assert_eq!(bit_map.iter().copied().collect::<Vec<u8>>(), vec![1, 2, 3, 4]);
}

#[test]
fn write_starts_reading_over() {
    let mut bit_map = holding(&[1, 2, 3, 4]);
    let mut out = [0u8; 3];
    bit_map.read(&mut out).unwrap();
    bit_map.write(&[7, 8]).unwrap();
    assert_eq!(bit_map.read(&mut out).unwrap(), 2);
    assert_eq!(out, [7, 8, 3]);
}

#[test]
fn iter_walks_the_bytes_in_order() {
    let bit_map = holding(&[3, 1, 4, 1, 5]);
    let mut bytes = bit_map.iter();
    assert_eq!(bytes.next(), Some(&3));
    assert_eq!(bytes.next(), Some(&1));
    assert_eq!(bytes.next(), Some(&4));
    assert_eq!(bytes.next(), Some(&1));
    assert_eq!(bytes.next(), Some(&5));
    assert_eq!(bytes.next(), None);
}

#[test]
fn iter_starts_over_each_time() {
    let bit_map = holding(&[3, 1, 4]);
    let first: Vec<u8> = bit_map.iter().copied().collect();
    let second: Vec<u8> = bit_map.iter().copied().collect();
    assert_eq!(first, vec![3, 1, 4]);
    assert_eq!(first, second);
    assert_eq!(BitMap::default().iter().count(), 0);
}

#[test]
fn index_gives_each_byte() {
    let bit_map = holding(&[3, 1, 4]);
    assert_eq!(bit_map[0], 3);
    assert_eq!(bit_map[1], 1);
    assert_eq!(bit_map[2], 4);
}

#[test]
fn next_walks_the_bytes_and_ends() {
    let mut bit_map = BitMap::new(0, 0).unwrap();
    bit_map.write(&[1, 2, 3]).unwrap();
    assert_eq!(bit_map.next(), Some(1));
    assert_eq!(bit_map.next(), Some(2));
    assert_eq!(bit_map.next(), Some(3));
    assert_eq!(bit_map.next(), None);
    assert_eq!(bit_map.next(), None);
}

#[test]
fn next_of_an_empty_body_is_none() {
    assert_eq!(BitMap::default().next(), None);
    assert_eq!(BitMap::new(0, 4).unwrap().next(), None);
    assert_eq!(holding(&[]).next(), None);
}

#[test]
fn next_of_a_new_bitmap_gives_its_zeros() {
    let mut bit_map = BitMap::new(2, 1).unwrap();
    assert_eq!(bit_map.next(), Some(0));
    assert_eq!(bit_map.next(), Some(0));
    assert_eq!(bit_map.next(), None);
}

#[test]
fn next_collects_to_the_body() {
    let buf: Vec<u8> = (0..=255u8).rev().collect();
    let mut bit_map = holding(&buf);
    let mut out = Vec::new();
    while let Some(byte) = bit_map.next() {
        out.push(byte);
        assert!(out.len() <= buf.len());
    }
    assert_eq!(out, buf);
}

#[test]
fn next_and_read_share_the_position() {
    let mut bit_map = holding(&[1, 2, 3, 4, 5]);
    assert_eq!(bit_map.next(), Some(1));
    let mut out = [0u8; 2];
    assert_eq!(bit_map.read(&mut out).unwrap(), 2);
    assert_eq!(out, [2, 3]);
    assert_eq!(bit_map.next(), Some(4));
    assert_eq!(bit_map.read(&mut out).unwrap(), 1);
    assert_eq!(out, [5, 3]);
    assert_eq!(bit_map.next(), None);
    assert_eq!(bit_map.read(&mut out).unwrap(), 0);
}

#[test]
fn next_leaves_the_body_and_the_fingerprint() {
    let mut bit_map = holding(&[3, 1, 4]);
    let before = bit_map.clone();
    assert_eq!(bit_map.next(), Some(3));
    assert_eq!(bit_map.next(), Some(1));
    assert_eq!(bit_map.iter().copied().collect::<Vec<u8>>(), vec![3, 1, 4]);
    assert_eq!(bit_map[0], 3);
    assert_eq!(bit_map, before);
    assert_eq!((bit_map.width(), bit_map.height()), (1, 1));
}

#[test]
fn write_starts_the_walk_over() {
    let mut bit_map = holding(&[1, 2, 3]);
    assert_eq!(bit_map.next(), Some(1));
    assert_eq!(bit_map.next(), Some(2));
    bit_map.write(&[7, 8]).unwrap();
    assert_eq!(bit_map.next(), Some(7));
    assert_eq!(bit_map.next(), Some(8));
    assert_eq!(bit_map.next(), None);
    bit_map.write(&[9]).unwrap();
    assert_eq!(bit_map.next(), Some(9));
    assert_eq!(bit_map.next(), None);
}

#[test]
fn a_clone_walks_on_from_the_same_place() {
    let mut bit_map = holding(&[1, 2, 3]);
    assert_eq!(bit_map.next(), Some(1));
    let mut copy = bit_map.clone();
    assert_eq!(copy.next(), Some(2));
    assert_eq!(bit_map.next(), Some(2));
    assert_eq!(copy.next(), Some(3));
    assert_eq!(copy.next(), None);
    assert_eq!(bit_map.next(), Some(3));
}

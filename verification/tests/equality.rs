use bitmap_copy::fingerprint::digest;
use bitmap_copy::io::Write;
use bitmap_copy::BitMap;

fn holding(width: usize, height: usize, bytes: &[u8]) -> BitMap {
    let mut bit_map = BitMap::new(width, height).unwrap();
    bit_map.write(bytes).unwrap();
    bit_map
}

#[test]
fn bitmaps_of_different_sizes_differ() {
    let bit_map1 = BitMap::new(32, 32).unwrap();
    let bit_map2 = BitMap::new(16, 16).unwrap();
    assert_ne!(bit_map1, bit_map2);
}

#[test]
fn different_contents_compare_unequal() {
    let mut bit_map = BitMap::new(2, 2).unwrap();
    bit_map.write(&[1, 2, 3, 4]).unwrap();
    let first = bit_map.clone();
    bit_map.write(&[1, 2, 3, 5]).unwrap();
    assert_ne!(first, bit_map);
    assert!(first != bit_map);
    assert!(!(first == bit_map));
    assert!(!first.equals(&bit_map));
    assert!(!bit_map.equals(&first));
}

#[test]
fn many_different_contents_compare_unequal() {
    let mut seen: Vec<BitMap> = Vec::new();
    for len in 0..40usize {
        for fill in [0u8, 1, 255] {
            if len == 0 && fill != 0 {
                continue;
            }
            let bit_map = holding(1, 1, &vec![fill; len]);
            for earlier in seen.iter() {
                assert_ne!(*earlier, bit_map);
            }
            seen.push(bit_map);
        }
    }
}

#[test]
fn a_prefix_is_not_equal_to_the_whole() {
    assert_ne!(holding(1, 1, &[0, 0]), holding(1, 1, &[0, 0, 0]));
    assert_ne!(holding(1, 1, &[]), holding(1, 1, &[0]));
}

#[test]
fn hash_update_is_idempotent() {
    let mut bit_map = holding(2, 2, &[9, 8, 7, 6, 5]);
    let written = bit_map.clone();
    bit_map.hash_update();
    let once = bit_map.clone();
    bit_map.hash_update();
    assert_eq!(once, bit_map);
    assert_eq!(written, bit_map);
}

#[test]
fn equality_is_reflexive() {
    let bit_map = holding(3, 1, &[1, 2, 3]);
    assert!(bit_map == bit_map);
    let empty = BitMap::default();
    assert!(empty == empty);
}

#[test]
fn equality_is_symmetric() {
    let a = holding(3, 1, &[1, 2, 3]);
    let b = holding(1, 3, &[1, 2, 3]);
    let c = holding(1, 3, &[3, 2, 1]);
    assert!(a == b && b == a);
    assert!(a != c && c != a);
}

#[test]
fn equality_is_transitive() {
    let a = holding(3, 1, &[4, 4, 4]);
    let b = holding(1, 3, &[4, 4, 4]);
    let c = holding(0, 0, &[4, 4, 4]);
    assert!(a == b);
    assert!(b == c);
    assert!(a == c);
}

#[test]
fn independently_built_bitmaps_with_the_same_bytes_are_equal() {
    let zeroed = BitMap::new(2, 3).unwrap();
    let written = holding(6, 1, &[0, 0, 0, 0, 0, 0]);
    assert_eq!(zeroed, written);
    assert_eq!(BitMap::new(4, 4).unwrap(), BitMap::new(2, 8).unwrap());
}

#[test]
fn equals_agrees_with_the_operator() {
    let a = holding(2, 2, &[1, 2, 3, 4]);
    let b = holding(4, 1, &[1, 2, 3, 4]);
    let c = holding(2, 2, &[4, 3, 2, 1]);
    assert!(a.equals(&a));
    assert!(a.equals(&b) && b.equals(&a));
    assert!(!a.equals(&c) && !c.equals(&a));
    assert_eq!(a.equals(&b), a == b);
    assert_eq!(a.equals(&c), a == c);
    assert!(BitMap::new(3, 3).unwrap().equals(&BitMap::new(9, 1).unwrap()));
}

#[test]
fn equality_ignores_the_dimensions() {
    let mut a = holding(2, 2, &[1, 1, 1, 1]);
    let b = a.clone();
    a.set_width(100);
    a.set_height(0);
    assert_eq!(a, b);
}

#[test]
fn equality_ignores_how_much_was_read() {
    let mut a = holding(2, 2, &[1, 2, 3, 4]);
    let b = a.clone();
    let mut out = [0u8; 3];
    a.read(&mut out).unwrap();
    assert_eq!(a, b);
}

#[test]
fn digest_depends_on_the_bytes_alone() {
    assert_eq!(digest(&[1, 2, 3]), digest(&vec![1u8, 2, 3]));
    assert_ne!(digest(&[1, 2, 3]), digest(&[1, 2, 4]));
    assert_ne!(digest(&[]), digest(&[0]));
    assert_ne!(digest(&[7]), 7);
}

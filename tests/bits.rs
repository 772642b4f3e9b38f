use volezk::bits::{get_bit, pack};

#[test]
fn pack_puts_first_bit_high() {
    let bits = vec![true, false, false, false, false, false, false, true, true];
    let bytes = pack(&bits);
    assert_eq!(bytes, vec![0b1000_0001u8, 0b1000_0000u8]);
    for (i, b) in bits.iter().enumerate() {
        assert_eq!(get_bit(&bytes, i), *b);
    }
    assert!(!get_bit(&bytes, 9));
}

#[test]
fn pack_sizes() {
    assert!(pack(&vec![]).is_empty());
    assert_eq!(pack(&vec![true; 8]), vec![0xffu8]);
    assert_eq!(pack(&vec![true; 10]).len(), 2);
    assert_eq!(pack(&vec![false; 17]), vec![0u8; 3]);
}

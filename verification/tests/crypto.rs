use blockchain::aggregator::table_unique_key;
use blockchain::block::Block;
use blockchain::blockchain::Blockchain;
use blockchain::crypto;
use blockchain::helpers::{Height, ValidatorId};

fn digest_of(bytes: [u8; 32]) -> crypto::Hash {
    crypto::Hash::new(bytes)
}

#[test]
fn sha256_of_empty_input() {
    let expected = digest_of([
        227, 176, 196, 66, 152, 252, 28, 20, 154, 251, 244, 200, 153, 111, 185, 36, 39, 174, 65,
        228, 100, 155, 147, 76, 164, 149, 153, 27, 120, 82, 184, 85,
    ]);
    assert_eq!(crypto::hash(&[]), expected);
}

#[test]
fn sha256_of_abc() {
    let expected = digest_of([
        186, 120, 22, 191, 143, 1, 207, 234, 65, 65, 64, 222, 93, 174, 34, 35, 176, 3, 97, 163,
        150, 23, 122, 156, 180, 16, 255, 97, 242, 0, 21, 173,
    ]);
    assert_eq!(crypto::hash(b"abc"), expected);
}

#[test]
fn hash_differs_from_its_input() {
    let input = [7u8; 32];
    assert_ne!(crypto::hash(&input).bytes, input);
}

#[test]
fn unique_key_of_first_core_table() {
    // The hash of four zero bytes.
    let expected = digest_of([
        223, 63, 97, 152, 4, 169, 47, 219, 64, 87, 25, 45, 196, 61, 215, 72, 234, 119, 138, 220,
        82, 188, 73, 140, 232, 5, 36, 192, 20, 184, 17, 25,
    ]);
    assert_eq!(Blockchain::service_table_unique_key(0, 0), expected);
    assert_eq!(table_unique_key(0, 0), expected);
}

#[test]
fn unique_key_is_little_endian() {
    // Service 1, table 2: the bytes 01 00 02 00.
    let expected = digest_of([
        123, 17, 193, 19, 51, 48, 205, 22, 16, 113, 191, 35, 160, 201, 182, 206, 83, 32, 168, 243,
        160, 248, 54, 32, 3, 90, 114, 190, 70, 223, 65, 4,
    ]);
    assert_eq!(Blockchain::service_table_unique_key(1, 2), expected);
    assert_eq!(Blockchain::service_table_unique_key(1, 2), crypto::hash(&[1, 0, 2, 0]));
    assert_ne!(Blockchain::service_table_unique_key(2, 1), expected);
}

#[test]
fn unique_key_of_largest_coordinates() {
    let expected = digest_of([
        173, 149, 19, 27, 192, 183, 153, 192, 177, 175, 71, 127, 177, 79, 207, 38, 166, 169, 247,
        96, 121, 228, 139, 240, 144, 172, 183, 232, 54, 123, 253, 14,
    ]);
    assert_eq!(Blockchain::service_table_unique_key(65535, 65535), expected);
}

#[test]
fn unique_key_with_high_bytes() {
    // Service 0x0102, table 0x0304: the bytes 02 01 04 03.
    assert_eq!(
        Blockchain::service_table_unique_key(0x0102, 0x0304),
        crypto::hash(&[2, 1, 4, 3])
    );
}

#[test]
fn zero_hash_is_all_zero() {
    assert_eq!(crypto::Hash::zero().bytes, [0u8; 32]);
}

#[test]
fn hash_same_and_order() {
    let mut low = [0u8; 32];
    let mut high = [0u8; 32];
    low[31] = 1;
    high[0] = 1;
    let low = crypto::Hash::new(low);
    let high = crypto::Hash::new(high);
    assert!(low.same(&low));
    assert!(!low.same(&high));
    assert!(low.less_than(&high));
    assert!(!high.less_than(&low));
    assert!(!low.less_than(&low));
    assert!(crypto::Hash::zero().less_than(&low));
}

#[test]
fn hash_order_is_decided_by_first_difference() {
    let mut a = [9u8; 32];
    let mut b = [9u8; 32];
    a[3] = 1;
    a[4] = 200;
    b[3] = 2;
    b[4] = 0;
    assert!(crypto::Hash::new(a).less_than(&crypto::Hash::new(b)));
    assert!(!crypto::Hash::new(b).less_than(&crypto::Hash::new(a)));
}

#[test]
fn public_key_same() {
    let a = crypto::PublicKey::new([3u8; 32]);
    let b = crypto::PublicKey::new([4u8; 32]);
    assert!(a.same(&a));
    assert!(!a.same(&b));
}

#[test]
fn block_encoding_layout() {
    let prev = crypto::Hash::new([1u8; 32]);
    let txs = crypto::Hash::new([2u8; 32]);
    let state = crypto::Hash::new([3u8; 32]);
    let block = Block::new(ValidatorId(0x0102), Height(0x0a0b0c0d), 0x11223344, &prev, &txs, &state);
    let bytes = block.to_bytes();
    assert_eq!(bytes.len(), 2 + 8 + 4 + 32 * 3);
    assert_eq!(&bytes[0..2], &[0x02, 0x01]);
    assert_eq!(&bytes[2..10], &[0x0d, 0x0c, 0x0b, 0x0a, 0, 0, 0, 0]);
    assert_eq!(&bytes[10..14], &[0x44, 0x33, 0x22, 0x11]);
    assert_eq!(&bytes[14..46], &[1u8; 32]);
    assert_eq!(&bytes[46..78], &[2u8; 32]);
    assert_eq!(&bytes[78..110], &[3u8; 32]);
}

#[test]
fn block_hash_is_sha256_of_encoding() {
    let prev = crypto::Hash::zero();
    let txs = crypto::Hash::new([5u8; 32]);
    let state = crypto::Hash::new([6u8; 32]);
    let block = Block::new(ValidatorId(1), Height(2), 3, &prev, &txs, &state);
    assert_eq!(block.hash(), crypto::hash(&block.to_bytes()));
    assert_eq!(block.proposer_id(), ValidatorId(1));
    assert_eq!(block.height(), Height(2));
    assert_eq!(block.tx_count(), 3);
}

#[test]
fn block_hash_depends_on_every_field() {
    let h = |n: u8| crypto::Hash::new([n; 32]);
    let base = Block::new(ValidatorId(1), Height(2), 3, &h(4), &h(5), &h(6));
    let others = vec![
        Block::new(ValidatorId(9), Height(2), 3, &h(4), &h(5), &h(6)),
        Block::new(ValidatorId(1), Height(9), 3, &h(4), &h(5), &h(6)),
        Block::new(ValidatorId(1), Height(2), 9, &h(4), &h(5), &h(6)),
        Block::new(ValidatorId(1), Height(2), 3, &h(9), &h(5), &h(6)),
        Block::new(ValidatorId(1), Height(2), 3, &h(4), &h(9), &h(6)),
        Block::new(ValidatorId(1), Height(2), 3, &h(4), &h(5), &h(9)),
    ];
    for other in others {
        assert_ne!(other.hash(), base.hash());
    }
}

use planpool::id::{hex_encode, new_id};
use planpool::store::valid_id;

#[test]
fn ids_are_valid_and_unique() {
    let a = new_id();
    let b = new_id();
    assert!(valid_id(&a));
    assert!(valid_id(&b));
    assert_ne!(a, b);
}

#[test]
fn rejects_traversal_shaped_ids() {
    assert!(!valid_id(""));
    assert!(!valid_id("../../etc/passwd"));
    assert!(!valid_id("AAAAAAAAAAAAAAAAAAAAAAAAAAAAAAAA"));
    assert!(!valid_id("0123456789abcdef0123456789abcde")); // 31 chars
}

#[test]
fn accepts_exactly_thirty_two_lower_hex_chars() {
    assert!(valid_id("879255f0c80239b707ef77159a2d7980"));
    assert!(valid_id("0123456789abcdef0123456789abcdef"));
    assert!(!valid_id("0123456789abcdef0123456789abcdef0")); // 33 chars
    assert!(!valid_id("0123456789abcdeg0123456789abcdef")); // 'g'
    assert!(!valid_id("0123456789abcdef0123456789abcdeF")); // upper case
    assert!(!valid_id("0123456789abcdef0123456789abcd/e"));
    // 32 bytes but 31 characters: not an ID either
    assert!(!valid_id("0123456789abcdef0123456789abcdé"));
}

#[test]
fn hex_encoding_is_two_lower_digits_per_byte() {
    assert_eq!(hex_encode(&[]), "");
    assert_eq!(hex_encode(&[0x00, 0x0f, 0xa0, 0xff]), "000fa0ff");
    let bytes = [
        0x87, 0x92, 0x55, 0xf0, 0xc8, 0x02, 0x39, 0xb7, 0x07, 0xef, 0x77, 0x15, 0x9a, 0x2d, 0x79,
        0x80,
    ];
    assert_eq!(hex_encode(&bytes), "879255f0c80239b707ef77159a2d7980");
    assert!(valid_id(&hex_encode(&bytes)));
}

#[test]
fn new_ids_are_thirty_two_chars_and_differ() {
    let ids: Vec<String> = (0..16).map(|_| new_id()).collect();
    for id in &ids {
        assert_eq!(id.len(), 32);
        assert!(valid_id(id));
    }
    for i in 0..ids.len() {
        for j in (i + 1)..ids.len() {
            assert_ne!(ids[i], ids[j]);
        }
    }
}

#[test]
fn different_bytes_spell_different_ids() {
    let a = [0u8; 16];
    let mut b = a;
    b[15] = 1;
    let mut c = a;
    c[0] = 0x10;
    assert_ne!(hex_encode(&a), hex_encode(&b));
    assert_ne!(hex_encode(&a), hex_encode(&c));
    assert_eq!(hex_encode(&c), "10000000000000000000000000000000");
}

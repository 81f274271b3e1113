use solana_vanity::encoding::encode_base58;

#[test]
fn encodes_known_vector() {
    let input = [0x04u8, 0x30, 0x5e, 0x2b, 0x24, 0x73, 0xf0, 0x58];
    assert_eq!(encode_base58(&input), "he11owor1d");
}

#[test]
fn encodes_empty_input_as_empty_text() {
    assert_eq!(encode_base58(&[]), "");
}

#[test]
fn encodes_leading_zero_bytes_as_ones() {
    assert_eq!(encode_base58(&[0u8, 0, 0]), "111");
    assert_eq!(encode_base58(&[0u8; 32]), "11111111111111111111111111111111");
    assert_eq!(encode_base58(&[0u8, 1]), "12");
}

#[test]
fn encodes_small_values() {
    assert_eq!(encode_base58(&[1u8]), "2");
    assert_eq!(encode_base58(&[57u8]), "z");
    assert_eq!(encode_base58(&[58u8]), "21");
    assert_eq!(encode_base58(&[255u8]), "5Q");
}

#[test]
fn encoding_is_repeatable() {
    let mut key = [0u8; 32];
    for (i, byte) in key.iter_mut().enumerate() {
        *byte = (i * 7 + 3) as u8;
    }
    let first = encode_base58(&key);
    for _ in 0..20 {
        assert_eq!(encode_base58(&key), first);
    }
}

#[test]
fn encoding_round_trips_through_the_decoder() {
    let mut key = [0u8; 32];
    for (i, byte) in key.iter_mut().enumerate() {
        *byte = (200 - i * 5) as u8;
    }
    let text = encode_base58(&key);
    assert_ne!(text.as_bytes(), &key[..]);
    let back = bs58::decode(&text).into_vec().unwrap();
    assert_eq!(back, key.to_vec());
}

#[test]
fn distinct_keys_encode_to_distinct_text() {
    let a = [7u8; 32];
    let mut b = [7u8; 32];
    b[31] = 8;
    assert_ne!(encode_base58(&a), encode_base58(&b));
}

#[test]
fn encoded_key_uses_the_base58_alphabet() {
    let key = [0xffu8; 32];
    let text = encode_base58(&key);
    assert_eq!(text, "JEKNVnkbo3jma5nREBBJCDoXFVeKkD56V3xKrvRmWxFG");
    let alphabet = "123456789ABCDEFGHJKLMNPQRSTUVWXYZabcdefghijkmnopqrstuvwxyz";
    assert!(text.chars().all(|c| alphabet.contains(c)));
}

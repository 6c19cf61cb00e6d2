use vault::crypto::{
    calc_key, frame, key_decrypt, key_encrypt, password_decrypt, password_encrypt, split, IV_LEN,
    KEY_LEN, SALT, TAG_LEN,
};

fn key(fill: u8) -> Vec<u8> {
    vec![fill; KEY_LEN]
}

#[test]
fn round_trip_under_one_key() {
    let k = key(7);
    let sealed = key_encrypt(&k, b"s3cr3t").unwrap();
    assert_eq!(key_decrypt(&k, &sealed).unwrap(), Some(b"s3cr3t".to_vec()));
}

#[test]
fn round_trip_of_many_lengths() {
    let k = key(0x5a);
    for len in [1usize, 2, 15, 16, 17, 28, 29, 31, 32, 33, 255, 4096] {
        let plain: Vec<u8> = (0..len).map(|i| (i * 7 + 3) as u8).collect();
        let sealed = key_encrypt(&k, &plain).unwrap();
        assert_eq!(sealed.len(), len + IV_LEN + TAG_LEN);
        assert_eq!(key_decrypt(&k, &sealed).unwrap(), Some(plain));
    }
}

#[test]
fn envelope_is_ciphertext_nonce_tag() {
    let k = key(3);
    let plain = b"the quick brown fox jumps over the lazy dog";
    let sealed = key_encrypt(&k, plain).unwrap();
    let (ciphertext, nonce, tag) = split(&sealed).unwrap();
    assert_eq!(ciphertext.len(), plain.len());
    assert_eq!(nonce.len(), 12);
    assert_eq!(tag.len(), 16);
    assert_ne!(ciphertext, &plain[..]);
    assert_eq!(frame(ciphertext.to_vec(), nonce, tag), sealed);
}

#[test]
fn frame_lays_the_parts_out_in_order() {
    assert_eq!(frame(vec![1, 2], &[3, 4, 5], &[6]), vec![1, 2, 3, 4, 5, 6]);
    assert_eq!(frame(Vec::new(), &[], &[]), Vec::<u8>::new());
}

#[test]
fn split_needs_more_than_nonce_and_tag() {
    assert_eq!(split(&[0u8; 28]), None);
    assert_eq!(split(&[]), None);
    let input: Vec<u8> = (0..30u8).collect();
    let (ciphertext, nonce, tag) = split(&input).unwrap();
    assert_eq!(ciphertext, &[0u8, 1][..]);
    assert_eq!(nonce, &input[2..14]);
    assert_eq!(tag, &input[14..30]);
}

#[test]
fn empty_field_has_empty_envelope() {
    let k = key(1);
    assert_eq!(key_encrypt(&k, b"").unwrap(), Vec::<u8>::new());
    assert_eq!(key_decrypt(&k, b"").unwrap(), Some(Vec::new()));
}

#[test]
fn empty_field_needs_no_valid_key() {
    assert_eq!(key_encrypt(&[], b"").unwrap(), Vec::<u8>::new());
    assert_eq!(key_decrypt(&[1, 2, 3], b"").unwrap(), Some(Vec::new()));
}

#[test]
fn other_key_is_a_mismatch() {
    let sealed = key_encrypt(&key(1), b"hello").unwrap();
    assert_eq!(key_decrypt(&key(2), &sealed).unwrap(), None);
}

#[test]
fn tampered_envelope_is_a_mismatch() {
    let k = key(4);
    let mut sealed = key_encrypt(&k, b"hello").unwrap();
    sealed[0] ^= 1;
    assert_eq!(key_decrypt(&k, &sealed).unwrap(), None);
    let mut sealed = key_encrypt(&k, b"hello").unwrap();
    let last = sealed.len() - 1;
    sealed[last] ^= 0x80;
    assert_eq!(key_decrypt(&k, &sealed).unwrap(), None);
}

#[test]
fn short_input_passes_through() {
    let k = key(3);
    for len in 0..=28usize {
        let input = vec![0xffu8; len];
        assert_eq!(key_decrypt(&k, &input).unwrap(), Some(input.clone()));
        assert_eq!(key_decrypt(&[], &input).unwrap(), Some(input));
    }
}

#[test]
fn input_of_29_bytes_is_an_envelope() {
    let input = [0u8; 29];
    assert_eq!(key_decrypt(&key(3), &input).unwrap(), None);
}

#[test]
fn nonce_differs_between_calls() {
    let k = key(9);
    let a = key_encrypt(&k, b"same").unwrap();
    let b = key_encrypt(&k, b"same").unwrap();
    assert_ne!(a, b);
    assert_ne!(split(&a).unwrap().1, split(&b).unwrap().1);
}

#[test]
fn key_of_wrong_length_is_an_error() {
    assert!(key_encrypt(&[1u8; 16], b"data").is_err());
    assert!(key_encrypt(&[], b"data").is_err());
    let sealed = key_encrypt(&key(1), b"data").unwrap();
    assert!(key_decrypt(&[1u8; 16], &sealed).is_err());
}

#[test]
fn password_key_is_the_salted_digest() {
    assert_eq!(
        calc_key(b"pw"),
        vec![
            191, 131, 53, 123, 187, 157, 46, 125, 108, 3, 6, 129, 147, 242, 146, 41, 60, 175, 161,
            212, 47, 235, 14, 146, 87, 174, 46, 9, 228, 204, 21, 136
        ]
    );
    assert_eq!(
        calc_key(b""),
        vec![
            190, 198, 133, 82, 158, 186, 91, 244, 3, 179, 164, 198, 148, 133, 28, 124, 11, 97, 166,
            236, 75, 157, 223, 192, 129, 71, 146, 88, 232, 108, 28, 159
        ]
    );
    assert_eq!(SALT.len(), 16);
}

#[test]
fn password_encryption_is_key_encryption_under_the_derived_key() {
    let sealed = password_encrypt(b"pw", b"payload").unwrap();
    assert_eq!(key_decrypt(&calc_key(b"pw"), &sealed).unwrap(), Some(b"payload".to_vec()));
    let sealed = key_encrypt(&calc_key(b"pw"), b"payload").unwrap();
    assert_eq!(password_decrypt(b"pw", &sealed).unwrap(), Some(b"payload".to_vec()));
}

#[test]
fn password_round_trip() {
    let sealed = password_encrypt(b"correct", b"master key material").unwrap();
    assert_eq!(
        password_decrypt(b"correct", &sealed).unwrap(),
        Some(b"master key material".to_vec())
    );
    assert_eq!(password_decrypt(b"wrong", &sealed).unwrap(), None);
}

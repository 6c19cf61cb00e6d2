use vault::crypto::{key_encrypt, password_encrypt};
use vault::error::Source;
use vault::service::{
    add_password, change_password, decrypt_master_key, decrypt_text, get_password,
    is_master_password_set, key_decrypt, list_password, methods, set_master_password,
    verify_master_password, wrap_master_key, Error, Item, Password,
};

fn unavailable(e: &Error) -> bool {
    matches!(e, Error::Any(Source::Unavailable(_)))
}

#[test]
fn master_password_is_set_where_one_row_holds_the_key() {
    assert!(!is_master_password_set(0));
    assert!(is_master_password_set(1));
    assert!(!is_master_password_set(2));
}

#[test]
fn correct_password_verifies_and_wrong_one_does_not() {
    let stored = set_master_password("correct").unwrap();
    assert_eq!(verify_master_password("correct", Some(&stored)).unwrap(), true);
    assert_eq!(verify_master_password("wrong", Some(&stored)).unwrap(), false);
}

#[test]
fn without_master_password_every_operation_is_unavailable() {
    let e = decrypt_master_key(b"pw", None).unwrap_err();
    assert!(unavailable(&e));
    assert!(!matches!(e, Error::WrongPassword));
    assert!(unavailable(&decrypt_master_key(b"pw", Some("")).unwrap_err()));
    assert!(unavailable(&verify_master_password("pw", None).unwrap_err()));
    assert!(unavailable(&change_password("pw", "new", None).unwrap_err()));
}

#[test]
fn fresh_master_key_has_32_bytes_and_is_stored_as_base64() {
    let stored = set_master_password("pw").unwrap();
    let key = decrypt_master_key(b"pw", Some(&stored)).unwrap();
    assert_eq!(key.len(), 32);
    let raw = base64::decode(&stored).unwrap();
    assert_eq!(raw.len(), 32 + 12 + 16);
    let again = set_master_password("pw").unwrap();
    assert_ne!(decrypt_master_key(b"pw", Some(&again)).unwrap(), key);
}

#[test]
fn wrapped_key_unwraps_to_itself() {
    let key: Vec<u8> = (0..32u8).collect();
    let stored = wrap_master_key(b"pw", &key).unwrap();
    assert_ne!(stored.as_bytes(), &key[..]);
    assert_eq!(decrypt_master_key(b"pw", Some(&stored)).unwrap(), key);
    assert!(matches!(decrypt_master_key(b"other", Some(&stored)), Err(Error::WrongPassword)));
}

#[test]
fn stored_text_that_is_not_base64_is_an_encoding_error() {
    let e = decrypt_master_key(b"pw", Some("not base64!")).unwrap_err();
    assert!(matches!(e, Error::Any(Source::Encoding(_))));
    assert_eq!(e.kind(), "InternalError");
}

#[test]
fn short_stored_value_is_taken_as_it_is() {
    let stored = base64::encode(b"legacy");
    assert_eq!(decrypt_master_key(b"any", Some(&stored)).unwrap(), b"legacy".to_vec());
    assert_eq!(verify_master_password("any", Some(&stored)).unwrap(), true);
}

#[test]
fn changing_the_password_keeps_the_master_key() {
    let stored = set_master_password("old").unwrap();
    let key = decrypt_master_key(b"old", Some(&stored)).unwrap();
    let changed = change_password("old", "new", Some(&stored)).unwrap();
    assert_eq!(decrypt_master_key(b"new", Some(&changed)).unwrap(), key);
    assert!(matches!(decrypt_master_key(b"old", Some(&changed)), Err(Error::WrongPassword)));
    assert!(matches!(change_password("bad", "new", Some(&stored)), Err(Error::WrongPassword)));
}

#[test]
fn added_entry_is_listed_and_shown() {
    let stored = set_master_password("pw").unwrap();
    let key = decrypt_master_key(b"pw", Some(&stored)).unwrap();
    let (name, secret) = add_password(&key, "email", "s3cr3t").unwrap();
    let rows = vec![(1u64, name.clone())];
    let list = list_password(&key, &rows).unwrap();
    assert!(list.contains(&Item { id: 1, name: "email".to_string() }));
    let shown = get_password(&key, &name, &secret).unwrap();
    assert_eq!(shown, Password { name: "email".to_string(), password: "s3cr3t".to_string() });
}

#[test]
fn entries_are_listed_in_the_order_of_their_rows() {
    let key = vec![8u8; 32];
    let rows: Vec<(u64, Vec<u8>)> = vec![
        (3, key_encrypt(&key, "gamma".as_bytes()).unwrap()),
        (5, key_encrypt(&key, "späť".as_bytes()).unwrap()),
        (9, b"plain".to_vec()),
        (11, Vec::new()),
    ];
    let list = list_password(&key, &rows).unwrap();
    assert_eq!(
        list,
        vec![
            Item { id: 3, name: "gamma".to_string() },
            Item { id: 5, name: "späť".to_string() },
            Item { id: 9, name: "plain".to_string() },
            Item { id: 11, name: String::new() },
        ]
    );
    assert_eq!(list_password(&key, &Vec::new()).unwrap(), Vec::new());
}

#[test]
fn listing_under_another_key_is_a_wrong_password() {
    let rows = vec![(1u64, key_encrypt(&[1u8; 32], b"name").unwrap())];
    assert!(matches!(list_password(&[2u8; 32], &rows), Err(Error::WrongPassword)));
}

#[test]
fn first_refusal_ends_the_listing() {
    let key = vec![8u8; 32];
    let rows = vec![
        (1u64, key_encrypt(&key, b"fine").unwrap()),
        (2, vec![0xff, 0xfe]),
        (3, key_encrypt(&[9u8; 32], b"other").unwrap()),
    ];
    assert!(matches!(list_password(&key, &rows), Err(Error::Any(Source::Text(_)))));
    let rows = vec![
        (3u64, key_encrypt(&[9u8; 32], b"other").unwrap()),
        (2, vec![0xff, 0xfe]),
    ];
    assert!(matches!(list_password(&key, &rows), Err(Error::WrongPassword)));
}

#[test]
fn field_that_is_not_text_is_a_text_error() {
    let key = vec![8u8; 32];
    let sealed = key_encrypt(&key, &[0xc3, 0x28, 0x41]).unwrap();
    assert_eq!(key_decrypt(&key, &sealed).unwrap(), vec![0xc3, 0x28, 0x41]);
    assert!(matches!(decrypt_text(&key, &sealed), Err(Error::Any(Source::Text(_)))));
    let sealed = key_encrypt(&key, "héllo".as_bytes()).unwrap();
    assert_eq!(decrypt_text(&key, &sealed).unwrap(), "héllo");
}

#[test]
fn cipher_failure_is_an_internal_error() {
    let sealed = key_encrypt(&[1u8; 32], b"some name").unwrap();
    let e = key_decrypt(&[1u8; 5], &sealed).unwrap_err();
    assert!(matches!(e, Error::Any(Source::Cipher(_))));
    assert_eq!(e.kind(), "InternalError");
    assert!(matches!(add_password(&[1u8; 5], "n", "p"), Err(Error::Any(Source::Cipher(_)))));
    assert!(matches!(wrap_master_key(b"pw", b"k").map(|_| ()), Ok(())));
}

#[test]
fn sealing_an_entry_uses_a_nonce_for_each_field() {
    let key = vec![8u8; 32];
    let (name, secret) = add_password(&key, "same", "same").unwrap();
    assert_ne!(name, secret);
    assert_eq!(name.len(), 4 + 28);
    let (name, secret) = add_password(&key, "", "").unwrap();
    assert!(name.is_empty() && secret.is_empty());
}

#[test]
fn kinds_of_errors_as_clients_see_them() {
    assert_eq!(Error::WrongPassword.kind(), "WrongPassword");
    assert_eq!(Error::DeserializeFailed.kind(), "DeserializeFailed");
    assert_eq!(Error::Any(Source::Other("disk".to_string())).kind(), "InternalError");
    assert_eq!(
        Error::Any(Source::Unavailable(vault::server::Unavailable)).kind(),
        "InternalError"
    );
}

#[test]
fn registry_names_every_operation() {
    assert_eq!(
        methods(),
        vec![
            "is_master_password_set",
            "set_master_password",
            "verify_master_password",
            "make_password",
            "add_password",
            "list_password",
            "get_password",
            "delete_password",
            "export_password",
            "import_password",
            "update_password",
            "change_password",
            "get_network_port",
            "enable_network_access",
            "disable_network_access",
        ]
    );
}

#[test]
fn master_key_wrapped_by_hand_unwraps() {
    let key = [0x11u8; 32];
    let stored = base64::encode(password_encrypt(b"pw", &key).unwrap());
    assert_eq!(decrypt_master_key(b"pw", Some(&stored)).unwrap(), key.to_vec());
}

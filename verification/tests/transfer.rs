use vault::crypto::{key_decrypt, key_encrypt};
use vault::error::Source;
use vault::service::{decrypt_master_key, set_master_password, Error};
use vault::transfer::{
    contains, export_password, get_all_password_as_map, import_password, insert_statement,
    plan_import, read_export, Count,
};

fn pair(name: &str, secret: &str) -> (Vec<u8>, Vec<u8>) {
    (name.as_bytes().to_vec(), secret.as_bytes().to_vec())
}

fn sealed(key: &[u8], name: &str, secret: &str) -> (Vec<u8>, Vec<u8>) {
    (
        key_encrypt(key, name.as_bytes()).unwrap(),
        key_encrypt(key, secret.as_bytes()).unwrap(),
    )
}

#[test]
fn statement_has_one_group_for_each_pair() {
    assert_eq!(insert_statement(0), None);
    assert_eq!(
        insert_statement(1).unwrap(),
        "INSERT INTO vault (key, value) VALUES (?, ?)"
    );
    assert_eq!(
        insert_statement(3).unwrap(),
        "INSERT INTO vault (key, value) VALUES (?, ?), (?, ?), (?, ?)"
    );
}

#[test]
fn membership_is_by_name_and_secret() {
    let entries = vec![pair("a", "1"), pair("a", "2"), pair("b", "1")];
    assert!(contains(&entries, b"a", b"1"));
    assert!(contains(&entries, b"a", b"2"));
    assert!(contains(&entries, b"b", b"1"));
    assert!(!contains(&entries, b"b", b"2"));
    assert!(!contains(&entries, b"", b""));
    assert!(!contains(&Vec::new(), b"a", b"1"));
}

#[test]
fn stored_entries_open_in_order() {
    let key = vec![3u8; 32];
    let rows = vec![sealed(&key, "a", "1"), sealed(&key, "b", "2"), pair("c", "3")];
    assert_eq!(
        get_all_password_as_map(&key, &rows).unwrap(),
        vec![pair("a", "1"), pair("b", "2"), pair("c", "3")]
    );
    assert!(matches!(get_all_password_as_map(&[4u8; 32], &rows), Err(Error::WrongPassword)));
    assert_eq!(get_all_password_as_map(&key, &Vec::new()).unwrap(), Vec::new());
}

#[test]
fn empty_vault_has_an_empty_export() {
    assert_eq!(export_password("pw", &[1u8; 32], &Vec::new()).unwrap(), Vec::new());
}

#[test]
fn export_is_base64_of_the_rows_and_the_wrapped_key() {
    let key: Vec<u8> = (0..32u8).collect();
    let rows = vec![
        (b"hello world".to_vec(), vec![0u8, 1, 2, 3, 4]),
        (Vec::new(), b"x".to_vec()),
    ];
    let list = export_password("pw", &key, &rows).unwrap();
    assert_eq!(list.len(), 3);
    assert_eq!(list[0], ("aGVsbG8gd29ybGQ=".to_string(), "AAECAwQ=".to_string()));
    assert_eq!(list[1], (String::new(), "eA==".to_string()));
    assert_eq!(list[2].1, "");
    assert_eq!(decrypt_master_key(b"pw", Some(&list[2].0)).unwrap(), key);
}

#[test]
fn export_reads_back_as_the_entries() {
    let key = vec![7u8; 32];
    let rows = vec![sealed(&key, "email", "s3cr3t"), sealed(&key, "bank", "1234")];
    let list = export_password("pw", &key, &rows).unwrap();
    assert_eq!(
        read_export(b"pw", &list).unwrap(),
        vec![pair("email", "s3cr3t"), pair("bank", "1234")]
    );
    assert!(matches!(read_export(b"other", &list), Err(Error::WrongPassword)));
    assert_eq!(read_export(b"pw", &Vec::new()).unwrap(), Vec::new());
}

#[test]
fn export_with_text_that_is_not_base64_is_refused() {
    let key = vec![7u8; 32];
    let mut list = export_password("pw", &key, &vec![sealed(&key, "a", "b")]).unwrap();
    list[0].1 = "***".to_string();
    assert!(matches!(read_export(b"pw", &list), Err(Error::Any(Source::Encoding(_)))));
    let mut list = export_password("pw", &key, &vec![sealed(&key, "a", "b")]).unwrap();
    list[1].0 = "***".to_string();
    assert!(matches!(read_export(b"pw", &list), Err(Error::Any(Source::Encoding(_)))));
}

#[test]
fn import_counts_what_is_new_and_what_is_held() {
    let key = vec![5u8; 32];
    let pairs = vec![pair("a", "1"), pair("b", "2"), pair("a", "9"), pair("c", "3")];
    let entries = vec![pair("b", "2"), pair("a", "1")];
    let plan = plan_import(&key, &pairs, &entries).unwrap();
    assert_eq!(plan.count, Count { ignore: 2, insert: 2 });
    assert_eq!(plan.insert.len(), 4);
    let opened: Vec<Vec<u8>> =
        plan.insert.iter().map(|v| key_decrypt(&key, v).unwrap().unwrap()).collect();
    assert_eq!(opened, vec![b"a".to_vec(), b"9".to_vec(), b"c".to_vec(), b"3".to_vec()]);
}

#[test]
fn import_of_nothing_new_seals_nothing() {
    let pairs = vec![pair("a", "1"), pair("a", "1")];
    let plan = plan_import(&[], &pairs, &vec![pair("a", "1")]).unwrap();
    assert_eq!(plan.count, Count { ignore: 2, insert: 0 });
    assert!(plan.insert.is_empty());
    let plan = plan_import(&[5u8; 32], &Vec::new(), &Vec::new()).unwrap();
    assert_eq!(plan.count, Count { ignore: 0, insert: 0 });
}

#[test]
fn entry_that_comes_twice_is_sealed_twice() {
    let key = vec![5u8; 32];
    let pairs = vec![pair("a", "1"), pair("a", "1")];
    let plan = plan_import(&key, &pairs, &Vec::new()).unwrap();
    assert_eq!(plan.count, Count { ignore: 0, insert: 2 });
    assert_eq!(plan.insert.len(), 4);
    assert_ne!(plan.insert[0], plan.insert[2]);
}

#[test]
fn import_fails_where_the_cipher_fails() {
    let pairs = vec![pair("a", "1")];
    assert!(matches!(
        plan_import(&[1u8; 3], &pairs, &Vec::new()),
        Err(Error::Any(Source::Cipher(_)))
    ));
}

#[test]
fn export_of_one_vault_imports_into_another() {
    let source_key = decrypt_master_key(b"one", Some(&set_master_password("one").unwrap())).unwrap();
    let target_key = decrypt_master_key(b"two", Some(&set_master_password("two").unwrap())).unwrap();
    let rows = vec![
        sealed(&source_key, "email", "s3cr3t"),
        sealed(&source_key, "bank", "1234"),
    ];
    let data = export_password("one", &source_key, &rows).unwrap();
    let held = vec![pair("bank", "1234")];

    let plan = import_password(&target_key, "two", Some("one"), &data, &held).unwrap();
    assert_eq!(plan.count, Count { ignore: 1, insert: 1 });
    assert_eq!(key_decrypt(&target_key, &plan.insert[0]).unwrap(), Some(b"email".to_vec()));
    assert_eq!(key_decrypt(&target_key, &plan.insert[1]).unwrap(), Some(b"s3cr3t".to_vec()));

    assert!(matches!(
        import_password(&target_key, "two", None, &data, &held),
        Err(Error::WrongPassword)
    ));
    let plan = import_password(&source_key, "one", None, &data, &held).unwrap();
    assert_eq!(plan.count, Count { ignore: 1, insert: 1 });
    let plan = import_password(&target_key, "two", None, &Vec::new(), &held).unwrap();
    assert_eq!(plan.count, Count { ignore: 0, insert: 0 });
    assert!(plan.insert.is_empty());
}

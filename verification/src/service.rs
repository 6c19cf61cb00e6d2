//! The operations on the vault, as far as they compute: the key hierarchy and
//! the sealing and opening of entries.
//!
//! A master password stands for a wrapping key. The wrapping key encrypts the
//! master key, 32 random bytes that are stored as base64 text and nowhere in
//! the clear. The master key encrypts the name and the secret of every entry.
//! Each operation on entries first unwraps the master key with the password it
//! was given.

use crate::crypto::{
    decrypted, derived_key, is_encryption, key_encrypt, password_decrypt, password_encrypt,
    random_bytes, IV_LEN, KEY_LEN, MAX_LEN, TAG_LEN,
};
use crate::error::Source;
use crate::server::Unavailable;
use base64::DecodeError;
use std::string::FromUtf8Error;
use vstd::prelude::*;
use vstd::string::StringSliceAdditionalSpecFns;
use vstd::utf8::{decode_utf8, valid_utf8};

verus! {

/// Why an operation was not carried out.
#[derive(Debug)]
pub enum Error {
    /// The password does not open what it was tried on.
    WrongPassword,
    /// Data handed in for import could not be read.
    DeserializeFailed,
    /// Anything else.
    Any(Source),
}

/// Why an operation is refused where the cipher does its work.
pub enum Refusal {
    /// The key does not open the data.
    WrongPassword,
    /// No master password was ever set.
    Unavailable,
    /// Stored text is not base64.
    Encoding,
    /// A decrypted field is not text.
    Text,
}

/// The error `e` is what an operation reports whose outcome, where the cipher
/// does its work, is `outcome`: the refusal that the outcome is, or a failure
/// of the cipher itself.
pub open spec fn reports<T>(e: Error, outcome: Result<T, Refusal>) -> bool {
    match e {
        Error::WrongPassword => outcome == Err::<T, _>(Refusal::WrongPassword),
        Error::DeserializeFailed => false,
        Error::Any(Source::Unavailable(_)) => outcome == Err::<T, _>(Refusal::Unavailable),
        Error::Any(Source::Encoding(_)) => outcome == Err::<T, _>(Refusal::Encoding),
        Error::Any(Source::Text(_)) => outcome == Err::<T, _>(Refusal::Text),
        Error::Any(Source::Cipher(_)) => true,
        Error::Any(Source::Other(_)) => false,
    }
}

/// The error `e` is a failure of the cipher or of the source of randomness.
pub open spec fn cipher_failed(e: Error) -> bool {
    e matches Error::Any(Source::Cipher(_))
}

/// The standard base64 encoding of `data`, padded.
pub uninterp spec fn base64_encoded(data: Seq<u8>) -> Seq<char>;

/// What standard base64 text decodes to; `None` where it is not such text.
pub uninterp spec fn base64_decoded(text: Seq<char>) -> Option<Seq<u8>>;

/// Calls `base64::encode`, which gives the standard encoding with padding.
#[verifier::external_body]
pub(crate) fn encode(data: &[u8]) -> (text: String)
    requires
        data@.len() / 3 * 4 + 4 <= usize::MAX,
    ensures
        text@ == base64_encoded(data@),
{
    base64::encode(data)
}

/// Calls `base64::decode`, which reads the standard encoding. It writes at
/// most six bytes for every eight of its input, the last eight rounded up.
#[verifier::external_body]
pub(crate) fn decode(text: &str) -> (r: Result<Vec<u8>, DecodeError>)
    requires
        text.spec_bytes().len() + 7 <= usize::MAX,
    ensures
        match r {
            Ok(data) => {
                &&& base64_decoded(text@) == Some(data@)
                &&& data@.len() <= (text.spec_bytes().len() + 7) / 8 * 6
            },
            Err(_) => base64_decoded(text@) is None,
        },
{
    base64::decode(text)
}

/// Calls `String::from_utf8`, which takes the bytes as they are where they are
/// UTF-8, and fails where they are not.
#[verifier::external_body]
fn text_of(bytes: Vec<u8>) -> (r: Result<String, FromUtf8Error>)
    ensures
        r is Ok <==> valid_utf8(bytes@),
        r matches Ok(text) ==> text@ == decode_utf8(bytes@),
{
    String::from_utf8(bytes)
}

impl Error {
    /// The kind of the error, as it is told to a client. Of an error that is
    /// neither about the password nor about the data handed in, a client
    /// learns no more than that it is internal.
    pub open spec fn spec_kind(&self) -> Seq<char> {
        match *self {
            Error::WrongPassword => "WrongPassword"@,
            Error::DeserializeFailed => "DeserializeFailed"@,
            Error::Any(_) => "InternalError"@,
        }
    }

    /// The kind of the error, as it is told to a client.
    pub fn kind(&self) -> (kind: &'static str)
        ensures
            kind@ == self.spec_kind(),
    {
        match self {
            Error::WrongPassword => "WrongPassword",
            Error::DeserializeFailed => "DeserializeFailed",
            Error::Any(_) => "InternalError",
        }
    }
}

/// The text of an optional string.
pub open spec fn text_view(text: Option<&str>) -> Option<Seq<char>> {
    match text {
        Some(t) => Some(t@),
        None => None,
    }
}

/// The master key that `password` unwraps from what is stored, where the
/// cipher does its work. Nothing stored, or empty text, says that no master
/// password was ever set.
pub open spec fn unwrapped(password: Seq<u8>, stored: Option<Seq<char>>) -> Result<
    Seq<u8>,
    Refusal,
> {
    match stored {
        None => Err(Refusal::Unavailable),
        Some(text) => if text.len() == 0 {
            Err(Refusal::Unavailable)
        } else {
            match base64_decoded(text) {
                None => Err(Refusal::Encoding),
                Some(data) => match decrypted(derived_key(password), data) {
                    Some(key) => Ok(key),
                    None => Err(Refusal::WrongPassword),
                },
            }
        },
    }
}

/// Unwrapping from what is stored does not get as far as the cipher: nothing
/// is stored, or what is stored does not decode, or it decodes to something
/// too short to be an envelope, which is taken as it is.
pub open spec fn needs_no_cipher(stored: Option<Seq<char>>) -> bool {
    match stored {
        None => true,
        Some(text) => text.len() == 0 || match base64_decoded(text) {
            None => true,
            Some(data) => data.len() <= IV_LEN + TAG_LEN,
        },
    }
}

/// `text` is a master key wrapped under `password`: the base64 text of an
/// encryption of `key` under the key that stands for the password.
pub open spec fn is_wrapped(text: Seq<char>, password: Seq<u8>, key: Seq<u8>) -> bool {
    exists|out: Seq<u8>| #[trigger]
        is_encryption(derived_key(password), key, out) && text == base64_encoded(out)
}

/// A field under `key`, where the cipher does its work.
pub open spec fn field(key: Seq<u8>, data: Seq<u8>) -> Result<Seq<u8>, Refusal> {
    match decrypted(key, data) {
        Some(plain) => Ok(plain),
        None => Err(Refusal::WrongPassword),
    }
}

/// A field under `key` as text, where the cipher does its work.
pub open spec fn field_text(key: Seq<u8>, data: Seq<u8>) -> Result<Seq<char>, Refusal> {
    match decrypted(key, data) {
        None => Err(Refusal::WrongPassword),
        Some(plain) => if valid_utf8(plain) {
            Ok(decode_utf8(plain))
        } else {
            Err(Refusal::Text)
        },
    }
}

/// Whether a master password is set, from the number of rows that hold a
/// wrapped master key: there is one such row or none.
pub fn is_master_password_set(rows: u32) -> (set: bool)
    ensures
        set == (rows == 1),
{
    rows == 1
}

/// Wraps a master key under a password, for storage as text.
pub fn wrap_master_key(password: &[u8], key: &[u8]) -> (r: Result<String, Error>)
    requires
        key@.len() <= MAX_LEN,
    ensures
        match r {
            Ok(text) => is_wrapped(text@, password@, key@),
            Err(e) => cipher_failed(e),
        },
        key@.len() == 0 ==> r is Ok,
{
    match password_encrypt(password, key) {
        Ok(out) => {
            let text = encode(out.as_slice());
            Ok(text)
        },
        Err(e) => Err(Error::Any(Source::Cipher(e))),
    }
}

/// Makes a fresh master key of 32 random bytes and wraps it under the
/// password. What comes back is the text to store.
pub fn set_master_password(master_password: &str) -> (r: Result<String, Error>)
    ensures
        match r {
            Ok(text) => exists|key: Seq<u8>| #[trigger]
                is_wrapped(text@, master_password.spec_bytes(), key) && key.len() == KEY_LEN,
            Err(e) => cipher_failed(e),
        },
{
    match random_bytes(KEY_LEN) {
        Ok(key) => {
            match wrap_master_key(master_password.as_bytes(), key.as_slice()) {
                Ok(text) => {
                    assert(is_wrapped(text@, master_password.spec_bytes(), key@));
                    Ok(text)
                },
                Err(e) => Err(e),
            }
        },
        Err(e) => Err(Error::Any(Source::Cipher(e))),
    }
}

/// Unwraps the master key with a password, from the text that is stored.
///
/// Nothing stored, or empty text, is `Unavailable`: no master password was
/// ever set. A password that does not fit is `WrongPassword`.
pub fn decrypt_master_key(password: &[u8], stored: Option<&str>) -> (r: Result<Vec<u8>, Error>)
    requires
        stored matches Some(text) ==> text.spec_bytes().len() <= MAX_LEN,
    ensures
        match r {
            Ok(key) => unwrapped(password@, text_view(stored)) == Ok::<_, Refusal>(key@),
            Err(e) => reports(e, unwrapped(password@, text_view(stored))),
        },
        r matches Ok(key) ==> key@.len() <= MAX_LEN,
        needs_no_cipher(text_view(stored)) ==> !(r matches Err(e) && cipher_failed(e)),
{
    let text = match stored {
        None => {
            return Err(Error::Any(Source::Unavailable(Unavailable)));
        },
        Some(text) => text,
    };
    if text.is_empty() {
        return Err(Error::Any(Source::Unavailable(Unavailable)));
    }
    let data = match decode(text) {
        Ok(data) => data,
        Err(e) => {
            return Err(Error::Any(Source::Encoding(e)));
        },
    };
    match password_decrypt(password, data.as_slice()) {
        Ok(Some(key)) => Ok(key),
        Ok(None) => Err(Error::WrongPassword),
        Err(e) => Err(Error::Any(Source::Cipher(e))),
    }
}

/// Says whether a password is the master password: whether it unwraps the
/// master key. A password that does not fit is no error.
pub fn verify_master_password(master_password: &str, stored: Option<&str>) -> (r: Result<
    bool,
    Error,
>)
    requires
        stored matches Some(text) ==> text.spec_bytes().len() <= MAX_LEN,
    ensures
        match r {
            Ok(fits) => if fits {
                unwrapped(master_password.spec_bytes(), text_view(stored)) is Ok
            } else {
                unwrapped(master_password.spec_bytes(), text_view(stored)) == Err::<Seq<u8>, _>(
                    Refusal::WrongPassword,
                )
            },
            Err(e) => !(e is WrongPassword) && reports(
                e,
                unwrapped(master_password.spec_bytes(), text_view(stored)),
            ),
        },
        needs_no_cipher(text_view(stored)) ==> !(r matches Err(e) && cipher_failed(e)),
{
    match decrypt_master_key(master_password.as_bytes(), stored) {
        Ok(_) => Ok(true),
        Err(Error::WrongPassword) => Ok(false),
        Err(e) => Err(e),
    }
}

/// Wraps the master key anew: unwraps it with the password that holds, and
/// wraps it under the new one. What comes back is the text to store.
pub fn change_password(master_password: &str, new_password: &str, stored: Option<&str>) -> (r:
    Result<String, Error>)
    requires
        stored matches Some(text) ==> text.spec_bytes().len() <= MAX_LEN,
    ensures
        match r {
            Ok(text) => unwrapped(master_password.spec_bytes(), text_view(stored)) matches Ok(key)
                && is_wrapped(text@, new_password.spec_bytes(), key),
            Err(e) => reports(e, unwrapped(master_password.spec_bytes(), text_view(stored))),
        },
{
    let key = decrypt_master_key(master_password.as_bytes(), stored)?;
    wrap_master_key(new_password.as_bytes(), key.as_slice())
}

/// The outcome of reading each of `items` with `read`, in order: what was read
/// where every one could be, else the first refusal.
pub open spec fn each<A, B>(items: Seq<A>, read: spec_fn(A) -> Result<B, Refusal>) -> Result<
    Seq<B>,
    Refusal,
>
    decreases items.len(),
{
    if items.len() == 0 {
        Ok(Seq::empty())
    } else {
        match each(items.drop_last(), read) {
            Err(why) => Err(why),
            Ok(done) => match read(items.last()) {
                Err(why) => Err(why),
                Ok(one) => Ok(done.push(one)),
            },
        }
    }
}

/// A refusal among the first `n` items is the refusal of the whole.
pub proof fn lemma_each_refused<A, B>(
    items: Seq<A>,
    read: spec_fn(A) -> Result<B, Refusal>,
    n: int,
)
    requires
        0 <= n <= items.len(),
        each(items.take(n), read) is Err,
    ensures
        each(items, read) == each(items.take(n), read),
    decreases items.len() - n,
{
    if n < items.len() {
        assert(items.take(n + 1).drop_last() =~= items.take(n));
        lemma_each_refused(items, read, n + 1);
    } else {
        assert(items.take(n) =~= items);
    }
}

/// Reading one item more, after `n` that could be read.
pub proof fn lemma_each_next<A, B>(items: Seq<A>, read: spec_fn(A) -> Result<B, Refusal>, n: int)
    requires
        0 <= n < items.len(),
        each(items.take(n), read) is Ok,
    ensures
        each(items.take(n + 1), read) == match read(items[n]) {
            Err(why) => Err::<Seq<B>, _>(why),
            Ok(one) => Ok(each(items.take(n), read)->Ok_0.push(one)),
        },
{
    assert(items.take(n + 1).drop_last() =~= items.take(n));
    assert(items.take(n + 1).last() == items[n]);
}

/// An entry as it is listed.
#[derive(Debug, PartialEq, Eq)]
pub struct Item {
    /// The number of the entry's row.
    pub id: u64,
    /// The entry's name.
    pub name: String,
}

/// An entry as it is shown.
#[derive(Debug, PartialEq, Eq)]
pub struct Password {
    /// The entry's name.
    pub name: String,
    /// The entry's secret.
    pub password: String,
}

/// A row of the vault as it is listed: its number and its encrypted name.
pub type NameRow = (u64, Vec<u8>);

/// What a list of items holds.
pub open spec fn items_view(list: Seq<Item>) -> Seq<(u64, Seq<char>)> {
    Seq::new(list.len(), |i: int| (list[i].id, list[i].name@))
}

/// Reads the item of a row under `key`.
pub open spec fn item_reader(key: Seq<u8>) -> spec_fn(NameRow) -> Result<(u64, Seq<char>), Refusal> {
    |row: NameRow|
        match field_text(key, row.1@) {
            Ok(name) => Ok((row.0, name)),
            Err(why) => Err(why),
        }
}

/// Every envelope among `rows` is short enough for the cipher.
pub open spec fn names_fit(rows: Seq<NameRow>) -> bool {
    forall|i: int| 0 <= i < rows.len() ==> (#[trigger] rows[i]).1@.len() <= MAX_LEN
}

/// No name among `rows` is long enough to be an envelope: each is taken as it
/// is, and the cipher is not asked.
pub open spec fn names_plain(rows: Seq<NameRow>) -> bool {
    forall|i: int| 0 <= i < rows.len() ==> (#[trigger] rows[i]).1@.len() <= IV_LEN + TAG_LEN
}

/// Opens a field under the master key. A key that does not fit is a wrong
/// password: the key came from the password.
pub fn key_decrypt(key: &[u8], data: &[u8]) -> (r: Result<Vec<u8>, Error>)
    requires
        key@.len() <= MAX_LEN,
        data@.len() <= MAX_LEN,
    ensures
        match r {
            Ok(plain) => field(key@, data@) == Ok::<_, Refusal>(plain@) && plain@.len()
                <= data@.len(),
            Err(e) => reports(e, field(key@, data@)),
        },
        data@.len() <= IV_LEN + TAG_LEN ==> r is Ok,
{
    match crate::crypto::key_decrypt(key, data) {
        Ok(Some(plain)) => Ok(plain),
        Ok(None) => Err(Error::WrongPassword),
        Err(e) => Err(Error::Any(Source::Cipher(e))),
    }
}

/// Opens a field under the master key and reads it as text.
pub fn decrypt_text(key: &[u8], data: &[u8]) -> (r: Result<String, Error>)
    requires
        key@.len() <= MAX_LEN,
        data@.len() <= MAX_LEN,
    ensures
        match r {
            Ok(text) => field_text(key@, data@) == Ok::<_, Refusal>(text@),
            Err(e) => reports(e, field_text(key@, data@)),
        },
        data@.len() <= IV_LEN + TAG_LEN ==> !(r matches Err(e) && cipher_failed(e)),
{
    let plain = key_decrypt(key, data)?;
    match text_of(plain) {
        Ok(text) => Ok(text),
        Err(e) => Err(Error::Any(Source::Text(e))),
    }
}

/// Lists the entries: opens the name of each row under the master key, in the
/// order of the rows. The first name that does not open, or is not text, ends
/// the listing.
pub fn list_password(key: &[u8], rows: &Vec<NameRow>) -> (r: Result<Vec<Item>, Error>)
    requires
        key@.len() <= MAX_LEN,
        names_fit(rows@),
    ensures
        match r {
            Ok(list) => each(rows@, item_reader(key@)) == Ok::<_, Refusal>(items_view(list@)),
            Err(e) => reports(e, each(rows@, item_reader(key@))),
        },
        names_plain(rows@) ==> !(r matches Err(e) && cipher_failed(e)),
{
    let mut list: Vec<Item> = Vec::new();
    let mut i: usize = 0;
    assert(rows@.take(0) =~= Seq::<NameRow>::empty());
    assert(items_view(list@) =~= Seq::<(u64, Seq<char>)>::empty());
    while i < rows.len()
        invariant
            i <= rows.len(),
            key@.len() <= MAX_LEN,
            names_fit(rows@),
            each(rows@.take(i as int), item_reader(key@)) == Ok::<_, Refusal>(items_view(list@)),
        decreases rows.len() - i,
    {
        let row = &rows[i];
        proof {
            lemma_each_next(rows@, item_reader(key@), i as int);
        }
        match decrypt_text(key, row.1.as_slice()) {
            Ok(name) => {
                let ghost before = list@;
                list.push(Item { id: row.0, name });
                assert(items_view(list@) =~= items_view(before).push((row.0, name@)));
            },
            Err(e) => {
                proof {
                    if !cipher_failed(e) {
                        lemma_each_refused(rows@, item_reader(key@), i + 1);
                    }
                }
                return Err(e);
            },
        }
        i = i + 1;
    }
    assert(rows@.take(i as int) =~= rows@);
    Ok(list)
}

/// Shows one entry: opens its name and its secret under the master key.
pub fn get_password(key: &[u8], name: &[u8], password: &[u8]) -> (r: Result<Password, Error>)
    requires
        key@.len() <= MAX_LEN,
        name@.len() <= MAX_LEN,
        password@.len() <= MAX_LEN,
    ensures
        match r {
            Ok(entry) => field_text(key@, name@) == Ok::<_, Refusal>(entry.name@) && field_text(
                key@,
                password@,
            ) == Ok::<_, Refusal>(entry.password@),
            Err(e) => reports(e, entry_text(key@, name@, password@)),
        },
        name@.len() <= IV_LEN + TAG_LEN && password@.len() <= IV_LEN + TAG_LEN ==> !(r matches Err(
            e,
        ) && cipher_failed(e)),
{
    let name = decrypt_text(key, name)?;
    let password = decrypt_text(key, password)?;
    Ok(Password { name, password })
}

/// Name and secret of an entry under `key`, where the cipher does its work:
/// the name is opened first.
pub open spec fn entry_text(key: Seq<u8>, name: Seq<u8>, password: Seq<u8>) -> Result<
    (Seq<char>, Seq<char>),
    Refusal,
> {
    match field_text(key, name) {
        Err(why) => Err(why),
        Ok(n) => match field_text(key, password) {
            Err(why) => Err(why),
            Ok(p) => Ok((n, p)),
        },
    }
}

/// Seals an entry, new or changed: encrypts its name and its secret under the
/// master key, each with a nonce of its own.
pub fn add_password(key: &[u8], name: &str, password: &str) -> (r: Result<
    (Vec<u8>, Vec<u8>),
    Error,
>)
    requires
        key@.len() <= MAX_LEN,
        name.spec_bytes().len() <= MAX_LEN,
        password.spec_bytes().len() <= MAX_LEN,
    ensures
        match r {
            Ok(sealed) => is_encryption(key@, name.spec_bytes(), sealed.0@) && is_encryption(
                key@,
                password.spec_bytes(),
                sealed.1@,
            ),
            Err(e) => cipher_failed(e),
        },
        name@.len() == 0 && password@.len() == 0 ==> r is Ok,
{
    let sealed_name = match key_encrypt(key, name.as_bytes()) {
        Ok(out) => out,
        Err(e) => {
            return Err(Error::Any(Source::Cipher(e)));
        },
    };
    let sealed_password = match key_encrypt(key, password.as_bytes()) {
        Ok(out) => out,
        Err(e) => {
            return Err(Error::Any(Source::Cipher(e)));
        },
    };
    Ok((sealed_name, sealed_password))
}

/// The names of the operations that clients can call.
pub open spec fn method_names() -> Seq<Seq<char>> {
    seq![
        "is_master_password_set"@,
        "set_master_password"@,
        "verify_master_password"@,
        "make_password"@,
        "add_password"@,
        "list_password"@,
        "get_password"@,
        "delete_password"@,
        "export_password"@,
        "import_password"@,
        "update_password"@,
        "change_password"@,
        "get_network_port"@,
        "enable_network_access"@,
        "disable_network_access"@,
    ]
}

/// What a list of names holds.
pub open spec fn names_view(list: Seq<&'static str>) -> Seq<Seq<char>> {
    Seq::new(list.len(), |i: int| list[i]@)
}

/// The registry of operations: the name of each operation that clients can
/// call, in the order in which they are registered.
pub fn methods() -> (list: Vec<&'static str>)
    ensures
        names_view(list@) == method_names(),
{
    let mut list: Vec<&'static str> = Vec::new();
    list.push("is_master_password_set");
    list.push("set_master_password");
    list.push("verify_master_password");
    list.push("make_password");
    list.push("add_password");
    list.push("list_password");
    list.push("get_password");
    list.push("delete_password");
    list.push("export_password");
    list.push("import_password");
    list.push("update_password");
    list.push("change_password");
    list.push("get_network_port");
    list.push("enable_network_access");
    list.push("disable_network_access");
    assert(names_view(list@) =~= method_names());
    list
}

} // verus!

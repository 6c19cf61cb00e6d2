//! Export and import of the vault.
//!
//! An export is a list of pairs of base64 text: the encrypted name and the
//! encrypted secret of each entry as they are stored, and behind them, in the
//! first half of one more pair, the master key wrapped under the password of
//! the vault that was exported. An import unwraps that key with the password
//! it is given, opens every pair, and seals under its own master key the
//! entries that the vault does not hold yet.

use crate::bytes::same_bytes;
use crate::crypto::{
    decrypted, derived_key, is_encryption, key_encrypt, password_decrypt, IV_LEN, MAX_LEN, TAG_LEN,
};
use crate::error::Source;
use crate::service::{
    base64_decoded, base64_encoded, cipher_failed, decode, each, encode, field, is_wrapped,
    key_decrypt, lemma_each_next, lemma_each_refused, reports, wrap_master_key, Error, Refusal,
};
use vstd::prelude::*;
use vstd::string::StringSliceAdditionalSpecFns;
use vstd::utf8::encode_utf8;

verus! {

/// The longest field as it is stored: the longest that the cipher takes, in
/// its envelope.
pub const MAX_SEALED: usize = MAX_LEN + IV_LEN + TAG_LEN;

/// Name and secret of an entry, both encrypted or both in the clear.
pub type Pair = (Vec<u8>, Vec<u8>);

/// A pair of an export: base64 text of the two fields of an entry.
pub type TextPair = (String, String);

/// How many entries an import met and what it did with them.
#[derive(Debug, Clone, Copy, PartialEq, Eq, Structural)]
pub struct Count {
    /// Entries that the vault held already.
    pub ignore: usize,
    /// Entries that are new to the vault.
    pub insert: usize,
}

/// What an import comes to.
#[derive(Debug)]
pub struct Import {
    /// How many entries were met.
    pub count: Count,
    /// The new entries, sealed: name and secret of the first, then of the
    /// second, and so on.
    pub insert: Vec<Vec<u8>>,
}

/// What a list of pairs holds.
pub open spec fn pairs_view(list: Seq<Pair>) -> Seq<(Seq<u8>, Seq<u8>)> {
    Seq::new(list.len(), |i: int| (list[i].0@, list[i].1@))
}

/// What a list of text pairs holds.
pub open spec fn texts_view(list: Seq<TextPair>) -> Seq<(Seq<char>, Seq<char>)> {
    Seq::new(list.len(), |i: int| (list[i].0@, list[i].1@))
}

/// What a list of byte strings holds.
pub open spec fn blobs_view(list: Seq<Vec<u8>>) -> Seq<Seq<u8>> {
    Seq::new(list.len(), |i: int| list[i]@)
}

/// Both fields of every pair are at most `limit` bytes long.
pub open spec fn pairs_fit(list: Seq<Pair>, limit: nat) -> bool {
    forall|i: int|
        0 <= i < list.len() ==> (#[trigger] list[i]).0@.len() <= limit && list[i].1@.len() <= limit
}

/// Both texts of every pair are at most `MAX_LEN` bytes long.
pub open spec fn texts_fit(list: Seq<TextPair>) -> bool {
    forall|i: int|
        0 <= i < list.len() ==> encode_utf8((#[trigger] list[i]).0@).len() <= MAX_LEN
            && encode_utf8(list[i].1@).len() <= MAX_LEN
}

/// Opens both fields of a stored pair under `key`, the name first.
pub open spec fn pair_reader(key: Seq<u8>) -> spec_fn(Pair) -> Result<(Seq<u8>, Seq<u8>), Refusal> {
    |pair: Pair|
        match field(key, pair.0@) {
            Err(why) => Err(why),
            Ok(name) => match field(key, pair.1@) {
                Err(why) => Err(why),
                Ok(password) => Ok((name, password)),
            },
        }
}

/// Decodes and opens one field of an export under `key`.
pub open spec fn text_field(key: Seq<u8>, text: Seq<char>) -> Result<Seq<u8>, Refusal> {
    match base64_decoded(text) {
        None => Err(Refusal::Encoding),
        Some(data) => field(key, data),
    }
}

/// Decodes and opens both fields of a pair of an export under `key`, the name
/// first.
pub open spec fn text_reader(key: Seq<u8>) -> spec_fn(TextPair) -> Result<
    (Seq<u8>, Seq<u8>),
    Refusal,
> {
    |pair: TextPair|
        match text_field(key, pair.0@) {
            Err(why) => Err(why),
            Ok(name) => match text_field(key, pair.1@) {
                Err(why) => Err(why),
                Ok(password) => Ok((name, password)),
            },
        }
}

/// The entries that an export holds, in the clear, for one who has the
/// password of the vault that was exported. An empty list holds none; of any
/// other the last pair carries the key to the rest.
pub open spec fn imported(password: Seq<u8>, data: Seq<TextPair>) -> Result<
    Seq<(Seq<u8>, Seq<u8>)>,
    Refusal,
> {
    if data.len() == 0 {
        Ok(Seq::empty())
    } else {
        match base64_decoded(data.last().0@) {
            None => Err(Refusal::Encoding),
            Some(wrapped) => match decrypted(derived_key(password), wrapped) {
                None => Err(Refusal::WrongPassword),
                Some(key) => each(data.drop_last(), text_reader(key)),
            },
        }
    }
}

/// The vault holds an entry of this name and secret.
pub open spec fn holds(entries: Seq<(Seq<u8>, Seq<u8>)>, entry: (Seq<u8>, Seq<u8>)) -> bool {
    exists|i: int| 0 <= i < entries.len() && #[trigger] entries[i] == entry
}

/// How many of `pairs` the vault does not hold, one that comes twice being
/// counted twice.
pub open spec fn fresh(pairs: Seq<(Seq<u8>, Seq<u8>)>, entries: Seq<(Seq<u8>, Seq<u8>)>) -> nat
    decreases pairs.len(),
{
    if pairs.len() == 0 {
        0
    } else if holds(entries, pairs.last()) {
        fresh(pairs.drop_last(), entries)
    } else {
        fresh(pairs.drop_last(), entries) + 1
    }
}

/// `sealed` holds, in the order of `pairs`, an encryption under `key` of the
/// name and then of the secret of each pair that the vault does not hold, and
/// nothing else.
pub open spec fn is_sealing(
    sealed: Seq<Seq<u8>>,
    key: Seq<u8>,
    pairs: Seq<(Seq<u8>, Seq<u8>)>,
    entries: Seq<(Seq<u8>, Seq<u8>)>,
) -> bool
    decreases pairs.len(),
{
    if pairs.len() == 0 {
        sealed.len() == 0
    } else if holds(entries, pairs.last()) {
        is_sealing(sealed, key, pairs.drop_last(), entries)
    } else {
        &&& sealed.len() >= 2
        &&& is_encryption(key, pairs.last().0, sealed[sealed.len() - 2])
        &&& is_encryption(key, pairs.last().1, sealed[sealed.len() - 1])
        &&& is_sealing(sealed.take(sealed.len() - 2), key, pairs.drop_last(), entries)
    }
}

/// What an export of `rows` holds before the pair that carries the key.
pub open spec fn exported(rows: Seq<Pair>) -> Seq<(Seq<char>, Seq<char>)> {
    Seq::new(rows.len(), |i: int| (base64_encoded(rows[i].0@), base64_encoded(rows[i].1@)))
}

/// One group of placeholders for each pair, with commas between the groups.
pub open spec fn placeholders(pairs: nat) -> Seq<char>
    decreases pairs,
{
    if pairs == 0 {
        Seq::empty()
    } else if pairs == 1 {
        "(?, ?)"@
    } else {
        placeholders((pairs - 1) as nat) + ", "@ + "(?, ?)"@
    }
}

/// The statement that inserts `pairs` entries at once.
pub open spec fn statement(pairs: nat) -> Seq<char> {
    "INSERT INTO vault (key, value) VALUES "@ + placeholders(pairs)
}

/// `String::push_str` appends the text it is given.
pub assume_specification[ String::push_str ](text: &mut String, more: &str)
    ensures
        final(text)@ == old(text)@ + more@,
;

/// Whether the vault holds an entry of this name and secret.
pub fn contains(entries: &Vec<Pair>, name: &[u8], password: &[u8]) -> (found: bool)
    ensures
        found == holds(pairs_view(entries@), (name@, password@)),
{
    let mut i: usize = 0;
    while i < entries.len()
        invariant
            i <= entries.len(),
            forall|j: int| 0 <= j < i ==> pairs_view(entries@)[j] != (name@, password@),
        decreases entries.len() - i,
    {
        let entry = &entries[i];
        if same_bytes(entry.0.as_slice(), name) && same_bytes(entry.1.as_slice(), password) {
            assert(pairs_view(entries@)[i as int] == (name@, password@));
            return true;
        }
        i = i + 1;
    }
    false
}

/// Opens every entry of the vault under the master key: name and secret of
/// each row, in the order of the rows.
pub fn get_all_password_as_map(key: &[u8], rows: &Vec<Pair>) -> (r: Result<Vec<Pair>, Error>)
    requires
        key@.len() <= MAX_LEN,
        pairs_fit(rows@, MAX_LEN as nat),
    ensures
        match r {
            Ok(entries) => each(rows@, pair_reader(key@)) == Ok::<_, Refusal>(
                pairs_view(entries@),
            ),
            Err(e) => reports(e, each(rows@, pair_reader(key@))),
        },
        pairs_fit(rows@, (IV_LEN + TAG_LEN) as nat) ==> !(r matches Err(e) && cipher_failed(e)),
{
    let mut entries: Vec<Pair> = Vec::new();
    let mut i: usize = 0;
    assert(rows@.take(0) =~= Seq::<Pair>::empty());
    assert(pairs_view(entries@) =~= Seq::<(Seq<u8>, Seq<u8>)>::empty());
    while i < rows.len()
        invariant
            i <= rows.len(),
            key@.len() <= MAX_LEN,
            pairs_fit(rows@, MAX_LEN as nat),
            each(rows@.take(i as int), pair_reader(key@)) == Ok::<_, Refusal>(
                pairs_view(entries@),
            ),
        decreases rows.len() - i,
    {
        let row = &rows[i];
        proof {
            lemma_each_next(rows@, pair_reader(key@), i as int);
        }
        let name = match key_decrypt(key, row.0.as_slice()) {
            Ok(name) => name,
            Err(e) => {
                proof {
                    if !cipher_failed(e) {
                        lemma_each_refused(rows@, pair_reader(key@), i + 1);
                    }
                }
                return Err(e);
            },
        };
        let password = match key_decrypt(key, row.1.as_slice()) {
            Ok(password) => password,
            Err(e) => {
                proof {
                    if !cipher_failed(e) {
                        lemma_each_refused(rows@, pair_reader(key@), i + 1);
                    }
                }
                return Err(e);
            },
        };
        let ghost before = entries@;
        entries.push((name, password));
        assert(pairs_view(entries@) =~= pairs_view(before).push((name@, password@)));
        i = i + 1;
    }
    assert(rows@.take(i as int) =~= rows@);
    Ok(entries)
}

/// Exports the vault: the rows as they are stored, as base64 text, and behind
/// them the master key, wrapped under the master password. An empty vault has
/// an empty export.
pub fn export_password(master_password: &str, key: &[u8], rows: &Vec<Pair>) -> (r: Result<
    Vec<TextPair>,
    Error,
>)
    requires
        key@.len() <= MAX_LEN,
        pairs_fit(rows@, MAX_SEALED as nat),
    ensures
        match r {
            Ok(list) => if rows@.len() == 0 {
                list@.len() == 0
            } else {
                &&& list@.len() == rows@.len() + 1
                &&& texts_view(list@).drop_last() == exported(rows@)
                &&& is_wrapped(list@.last().0@, master_password.spec_bytes(), key@)
                &&& list@.last().1@.len() == 0
            },
            Err(e) => cipher_failed(e),
        },
        rows@.len() == 0 ==> r is Ok,
{
    let mut list: Vec<TextPair> = Vec::new();
    let mut i: usize = 0;
    while i < rows.len()
        invariant
            i <= rows.len(),
            pairs_fit(rows@, MAX_SEALED as nat),
            list@.len() == i,
            texts_view(list@) == exported(rows@.take(i as int)),
        decreases rows.len() - i,
    {
        let row = &rows[i];
        let name = encode(row.0.as_slice());
        let password = encode(row.1.as_slice());
        let ghost before = list@;
        list.push((name, password));
        assert forall|j: int| 0 <= j < list@.len() implies texts_view(list@)[j] == exported(
            rows@.take(i + 1),
        )[j] by {
            if j < i {
                assert(texts_view(before)[j] == exported(rows@.take(i as int))[j]);
            }
        }
        i = i + 1;
        assert(texts_view(list@) =~= exported(rows@.take(i as int)));
    }
    assert(rows@.take(i as int) =~= rows@);
    if list.len() == 0 {
        return Ok(list);
    }
    let wrapped = wrap_master_key(master_password.as_bytes(), key)?;
    list.push((wrapped, String::new()));
    assert(texts_view(list@).drop_last() =~= exported(rows@));
    Ok(list)
}

/// Decodes one field of an export and opens it under the key of the export.
fn read_field(key: &[u8], text: &str) -> (r: Result<Vec<u8>, Error>)
    requires
        key@.len() <= MAX_LEN,
        text.spec_bytes().len() <= MAX_LEN,
    ensures
        match r {
            Ok(plain) => text_field(key@, text@) == Ok::<_, Refusal>(plain@) && plain@.len()
                <= MAX_LEN,
            Err(e) => reports(e, text_field(key@, text@)),
        },
{
    let data = match decode(text) {
        Ok(data) => data,
        Err(e) => {
            return Err(Error::Any(Source::Encoding(e)));
        },
    };
    key_decrypt(key, data.as_slice())
}

/// Reads an export with the password of the vault that was exported: the
/// entries in the clear, in the order of the export.
pub fn read_export(password: &[u8], data: &Vec<TextPair>) -> (r: Result<Vec<Pair>, Error>)
    requires
        texts_fit(data@),
    ensures
        match r {
            Ok(pairs) => imported(password@, data@) == Ok::<_, Refusal>(pairs_view(pairs@))
                && pairs_fit(pairs@, MAX_LEN as nat),
            Err(e) => reports(e, imported(password@, data@)),
        },
        data@.len() == 0 ==> r is Ok,
{
    let mut pairs: Vec<Pair> = Vec::new();
    if data.len() == 0 {
        assert(pairs_view(pairs@) =~= Seq::<(Seq<u8>, Seq<u8>)>::empty());
        return Ok(pairs);
    }
    let count: usize = data.len() - 1;
    let wrapped = match decode(data[count].0.as_str()) {
        Ok(wrapped) => wrapped,
        Err(e) => {
            return Err(Error::Any(Source::Encoding(e)));
        },
    };
    let key = match password_decrypt(password, wrapped.as_slice()) {
        Ok(Some(key)) => key,
        Ok(None) => {
            return Err(Error::WrongPassword);
        },
        Err(e) => {
            return Err(Error::Any(Source::Cipher(e)));
        },
    };
    let ghost rest = data@.drop_last();
    let mut i: usize = 0;
    assert(rest.take(0) =~= Seq::<TextPair>::empty());
    assert(pairs_view(pairs@) =~= Seq::<(Seq<u8>, Seq<u8>)>::empty());
    assert(imported(password@, data@) == each(rest, text_reader(key@)));
    while i < count
        invariant
            i <= count,
            count == data@.len() - 1,
            rest == data@.drop_last(),
            imported(password@, data@) == each(rest, text_reader(key@)),
            texts_fit(data@),
            key@.len() <= MAX_LEN,
            pairs_fit(pairs@, MAX_LEN as nat),
            each(rest.take(i as int), text_reader(key@)) == Ok::<_, Refusal>(pairs_view(pairs@)),
        decreases count - i,
    {
        let pair = &data[i];
        proof {
            assert(rest[i as int] == data@[i as int]);
            lemma_each_next(rest, text_reader(key@), i as int);
        }
        let name = match read_field(key.as_slice(), pair.0.as_str()) {
            Ok(name) => name,
            Err(e) => {
                proof {
                    if !cipher_failed(e) {
                        lemma_each_refused(rest, text_reader(key@), i + 1);
                    }
                }
                return Err(e);
            },
        };
        let password = match read_field(key.as_slice(), pair.1.as_str()) {
            Ok(password) => password,
            Err(e) => {
                proof {
                    if !cipher_failed(e) {
                        lemma_each_refused(rest, text_reader(key@), i + 1);
                    }
                }
                return Err(e);
            },
        };
        let ghost before = pairs@;
        pairs.push((name, password));
        assert(pairs_view(pairs@) =~= pairs_view(before).push((name@, password@)));
        i = i + 1;
    }
    assert(rest.take(i as int) =~= rest);
    Ok(pairs)
}

/// Decides what an import does with entries in the clear: those that the vault
/// holds already are counted and left out, the others are counted and sealed
/// under the master key. An entry that comes twice in the import and is new
/// to the vault is sealed twice.
pub fn plan_import(key: &[u8], pairs: &Vec<Pair>, entries: &Vec<Pair>) -> (r: Result<
    Import,
    Error,
>)
    requires
        key@.len() <= MAX_LEN,
        pairs_fit(pairs@, MAX_LEN as nat),
    ensures
        match r {
            Ok(plan) => {
                &&& plan.count.insert == fresh(pairs_view(pairs@), pairs_view(entries@))
                &&& plan.count.ignore + plan.count.insert == pairs@.len()
                &&& is_sealing(
                    blobs_view(plan.insert@),
                    key@,
                    pairs_view(pairs@),
                    pairs_view(entries@),
                )
            },
            Err(e) => cipher_failed(e),
        },
        fresh(pairs_view(pairs@), pairs_view(entries@)) == 0 ==> r is Ok,
{
    let mut count = Count { ignore: 0, insert: 0 };
    let mut insert: Vec<Vec<u8>> = Vec::new();
    let mut i: usize = 0;
    let ghost all = pairs_view(pairs@);
    let ghost held = pairs_view(entries@);
    assert(all.take(0) =~= Seq::<(Seq<u8>, Seq<u8>)>::empty());
    assert(blobs_view(insert@) =~= Seq::<Seq<u8>>::empty());
    while i < pairs.len()
        invariant
            i <= pairs.len(),
            key@.len() <= MAX_LEN,
            pairs_fit(pairs@, MAX_LEN as nat),
            all == pairs_view(pairs@),
            held == pairs_view(entries@),
            count.insert == fresh(all.take(i as int), held),
            count.ignore + count.insert == i,
            is_sealing(blobs_view(insert@), key@, all.take(i as int), held),
        decreases pairs.len() - i,
    {
        let pair = &pairs[i];
        proof {
            assert(all.take(i + 1).drop_last() =~= all.take(i as int));
            assert(all.take(i + 1).last() == (pair.0@, pair.1@));
            lemma_fresh_grows(all, held, i + 1);
        }
        if contains(entries, pair.0.as_slice(), pair.1.as_slice()) {
            count.ignore = count.ignore + 1;
        } else {
            let name = match key_encrypt(key, pair.0.as_slice()) {
                Ok(out) => out,
                Err(e) => {
                    return Err(Error::Any(Source::Cipher(e)));
                },
            };
            let password = match key_encrypt(key, pair.1.as_slice()) {
                Ok(out) => out,
                Err(e) => {
                    return Err(Error::Any(Source::Cipher(e)));
                },
            };
            let ghost before = blobs_view(insert@);
            insert.push(name);
            insert.push(password);
            count.insert = count.insert + 1;
            proof {
                let after = blobs_view(insert@);
                assert(after.take(after.len() - 2) =~= before);
                assert(after[after.len() - 2] == name@);
                assert(after[after.len() - 1] == password@);
            }
        }
        i = i + 1;
    }
    assert(all.take(i as int) =~= all);
    Ok(Import { count, insert })
}

/// The entries that are new among the first `n` are new among all.
proof fn lemma_fresh_grows(
    pairs: Seq<(Seq<u8>, Seq<u8>)>,
    entries: Seq<(Seq<u8>, Seq<u8>)>,
    n: int,
)
    requires
        0 <= n <= pairs.len(),
    ensures
        fresh(pairs.take(n), entries) <= fresh(pairs, entries),
        fresh(pairs.take(n), entries) <= n,
    decreases pairs.len() - n,
{
    lemma_fresh_bounded(pairs.take(n), entries);
    if n < pairs.len() {
        assert(pairs.take(n + 1).drop_last() =~= pairs.take(n));
        lemma_fresh_grows(pairs, entries, n + 1);
    } else {
        assert(pairs.take(n) =~= pairs);
    }
}

/// No more entries are new than there are.
proof fn lemma_fresh_bounded(pairs: Seq<(Seq<u8>, Seq<u8>)>, entries: Seq<(Seq<u8>, Seq<u8>)>)
    ensures
        fresh(pairs, entries) <= pairs.len(),
    decreases pairs.len(),
{
    if pairs.len() > 0 {
        lemma_fresh_bounded(pairs.drop_last(), entries);
    }
}

/// The password that opens an export: the one given for it, else the master
/// password.
pub open spec fn export_password_of(master_password: &str, decrypt_password: Option<&str>) -> Seq<
    u8,
> {
    match decrypt_password {
        Some(password) => password.spec_bytes(),
        None => master_password.spec_bytes(),
    }
}

/// Imports an export into the vault: reads it with the password given for it,
/// or with the master password where none is given, and seals under the
/// master key the entries that the vault, whose entries are given in the
/// clear, does not hold.
pub fn import_password(
    key: &[u8],
    master_password: &str,
    decrypt_password: Option<&str>,
    data: &Vec<TextPair>,
    entries: &Vec<Pair>,
) -> (r: Result<Import, Error>)
    requires
        key@.len() <= MAX_LEN,
        texts_fit(data@),
    ensures
        match r {
            Ok(plan) => imported(export_password_of(master_password, decrypt_password), data@)
                matches Ok(pairs) && {
                &&& plan.count.insert == fresh(pairs, pairs_view(entries@))
                &&& plan.count.ignore + plan.count.insert == pairs.len()
                &&& is_sealing(blobs_view(plan.insert@), key@, pairs, pairs_view(entries@))
            },
            Err(e) => reports(
                e,
                imported(export_password_of(master_password, decrypt_password), data@),
            ),
        },
        data@.len() == 0 ==> r is Ok,
{
    let password = match decrypt_password {
        Some(password) => password,
        None => master_password,
    };
    let pairs = read_export(password.as_bytes(), data)?;
    plan_import(key, &pairs, entries)
}

/// The statement that inserts `pairs` entries at once, with two parameters for
/// each; none where there is nothing to insert.
pub fn insert_statement(pairs: usize) -> (r: Option<String>)
    ensures
        pairs == 0 <==> r is None,
        r matches Some(text) ==> text@ == statement(pairs as nat),
{
    if pairs == 0 {
        return None;
    }
    let mut text = "INSERT INTO vault (key, value) VALUES ".to_owned();
    let mut i: usize = 0;
    assert(text@ =~= statement(0));
    while i < pairs
        invariant
            i <= pairs,
            text@ == statement(i as nat),
        decreases pairs - i,
    {
        if i > 0 {
            text.push_str(", ");
        }
        text.push_str("(?, ?)");
        i = i + 1;
        assert(text@ =~= statement(i as nat));
    }
    Some(text)
}

} // verus!

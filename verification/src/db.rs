//! The schema store: a list of migration scripts, applied in order and never
//! edited, and the number of those that a database has seen.
//!
//! The library decides what is to be run; running it is the caller's part, in
//! one transaction, so that a database never holds half a migration.

use vstd::prelude::*;
use vstd::string::StringSliceAdditionalSpecFns;

verus! {

/// The first schema: the vault and its configuration.
pub const VERSION_0: &'static str = "create table vault
(
    id integer primary key autoincrement,
    key blob not null,
    value blob not null
);
create unique index vault_key_uindex on vault (key);

create table conf
(
    key text not null primary key,
    value text
);";

/// The name of the database file in the data directory.
pub const DATABASE: &'static str = "database";

/// Counts the tables named `vault`: zero in a database that was never set up.
pub const COUNT_TABLES: &'static str =
    "SELECT COUNT(0) FROM sqlite_master WHERE type='table' AND name='vault'";

/// Reads the stored version.
pub const READ_VERSION: &'static str = "SELECT value FROM conf WHERE key='version'";

/// Stores the version of a database that had none.
pub const INSERT_VERSION: &'static str = "INSERT INTO conf (key, value) VALUES ('version', ?)";

/// Replaces the stored version.
pub const UPDATE_VERSION: &'static str = "UPDATE conf SET value=? WHERE key='version'";

/// The migration scripts, oldest first. The version of a database is the
/// number of scripts that it has seen.
pub open spec fn versions() -> Seq<Seq<char>> {
    seq![VERSION_0@]
}

/// The version of a database that has seen every script.
pub open spec fn latest() -> nat {
    versions().len()
}

/// What brings a database up to date.
pub struct Migration {
    /// The scripts to run, in this order.
    pub scripts: Vec<&'static str>,
    /// The statement that stores the new version, which is its one parameter.
    pub record: &'static str,
    /// The version that the database has once the scripts have run.
    pub version: usize,
}

impl Migration {
    /// The scripts as text.
    pub open spec fn scripts_view(&self) -> Seq<Seq<char>> {
        texts(self.scripts@)
    }
}

/// The text of each of a list of statements.
pub open spec fn texts(list: Seq<&'static str>) -> Seq<Seq<char>> {
    Seq::new(list.len(), |i: int| list[i]@)
}

/// Why no version could be read.
#[derive(Debug, Clone, Copy, PartialEq, Eq, Structural)]
pub enum VersionError {
    /// The tables are there and the version is not.
    Missing,
    /// What is stored is not a number that fits.
    Malformed,
}

/// The statement that records a version in a database whose version was
/// `from`: a database that has seen no script holds no row to update.
pub open spec fn record_for(from: nat) -> Seq<char> {
    if from == 0 {
        INSERT_VERSION@
    } else {
        UPDATE_VERSION@
    }
}

/// The scripts that a database of version `from` has not seen, oldest first.
pub open spec fn pending(from: nat) -> Seq<Seq<char>> {
    if from >= latest() {
        Seq::empty()
    } else {
        versions().subrange(from as int, latest() as int)
    }
}

/// The version of a database after `setup` was carried out on one of version
/// `from`.
pub open spec fn version_after(from: nat) -> nat {
    if from >= latest() {
        from
    } else {
        latest()
    }
}

/// The number that a run of decimal digits stands for.
pub open spec fn digits_value(digits: Seq<u8>) -> nat
    decreases digits.len(),
{
    if digits.len() == 0 {
        0
    } else {
        digits_value(digits.drop_last()) * 10 + (digits.last() - 0x30) as nat
    }
}

/// Every byte is a decimal digit.
pub open spec fn all_digits(digits: Seq<u8>) -> bool {
    forall|i: int| 0 <= i < digits.len() ==> 0x30 <= #[trigger] digits[i] <= 0x39
}

/// The digits of a number as it is written: what follows an optional `+`.
pub open spec fn digits_of(text: Seq<u8>) -> Seq<u8> {
    if text.len() > 0 && text[0] == 0x2b {
        text.drop_first()
    } else {
        text
    }
}

/// The number that `text` stands for: an optional `+`, then one decimal digit
/// or more, in all a number that fits.
pub open spec fn parsed(text: Seq<u8>) -> Option<usize> {
    let digits = digits_of(text);
    if digits.len() > 0 && all_digits(digits) && digits_value(digits) <= usize::MAX {
        Some(digits_value(digits) as usize)
    } else {
        None
    }
}

/// The version of a database, from the number of its tables named `vault` and
/// the text stored as its version.
pub open spec fn version_of(tables: usize, stored: Option<Seq<u8>>) -> Result<
    usize,
    VersionError,
> {
    if tables == 0 {
        Ok(0)
    } else {
        match stored {
            None => Err(VersionError::Missing),
            Some(text) => match parsed(text) {
                Some(version) => Ok(version),
                None => Err(VersionError::Malformed),
            },
        }
    }
}

/// The bytes of an optional text.
pub open spec fn text_bytes(text: Option<&str>) -> Option<Seq<u8>> {
    match text {
        Some(t) => Some(t.spec_bytes()),
        None => None,
    }
}

proof fn lemma_digits_value_grows(digits: Seq<u8>, n: int)
    requires
        0 <= n <= digits.len(),
    ensures
        digits_value(digits.take(n)) <= digits_value(digits),
    decreases digits.len() - n,
{
    if n < digits.len() {
        lemma_digits_value_grows(digits, n + 1);
        assert(digits.take(n + 1).drop_last() =~= digits.take(n));
    } else {
        assert(digits.take(n) =~= digits);
    }
}

/// The migration scripts, oldest first.
pub fn migrations() -> (list: Vec<&'static str>)
    ensures
        texts(list@) == versions(),
{
    let mut list: Vec<&'static str> = Vec::new();
    list.push(VERSION_0);
    assert(texts(list@) =~= versions());
    list
}

/// Reads a version as it is stored: as decimal text.
pub fn parse_version(text: &str) -> (version: Option<usize>)
    ensures
        version == parsed(text.spec_bytes()),
{
    let bytes = text.as_bytes();
    let start: usize = if bytes.len() > 0 && bytes[0] == 0x2b {
        1
    } else {
        0
    };
    if bytes.len() == start {
        return None;
    }
    let ghost digits = digits_of(bytes@);
    assert(digits =~= bytes@.subrange(start as int, bytes@.len() as int));
    let mut value: usize = 0;
    let mut i: usize = start;
    while i < bytes.len()
        invariant
            start <= i <= bytes.len(),
            bytes@ == text.spec_bytes(),
            digits == digits_of(bytes@),
            digits == bytes@.subrange(start as int, bytes@.len() as int),
            all_digits(digits.take(i - start)),
            value == digits_value(digits.take(i - start)),
        decreases bytes.len() - i,
    {
        let byte: u8 = bytes[i];
        let ghost seen = digits.take(i - start);
        let ghost more = digits.take(i + 1 - start);
        assert(more.drop_last() =~= seen);
        assert(more.last() == byte);
        assert(digits_value(more) == digits_value(seen) * 10 + (byte - 0x30) as nat);
        if byte < 0x30 || byte > 0x39 {
            assert(!(0x30 <= digits[i - start] <= 0x39));
            return None;
        }
        let digit: usize = (byte - 0x30) as usize;
        let next = match value.checked_mul(10) {
            Some(tens) => tens.checked_add(digit),
            None => None,
        };
        match next {
            Some(sum) => {
                value = sum;
            },
            None => {
                proof {
                    lemma_digits_value_grows(digits, i + 1 - start);
                }
                return None;
            },
        }
        i = i + 1;
    }
    assert(digits.take(i - start) =~= digits);
    Some(value)
}

/// The version of a database: zero where it holds no table named `vault`,
/// else the number stored as its version.
pub fn get_version(tables: usize, stored: Option<&str>) -> (r: Result<usize, VersionError>)
    ensures
        r == version_of(tables, text_bytes(stored)),
{
    if tables == 0 {
        return Ok(0);
    }
    match stored {
        None => Err(VersionError::Missing),
        Some(text) => match parse_version(text) {
            Some(version) => Ok(version),
            None => Err(VersionError::Malformed),
        },
    }
}

/// Decides what brings a database of the given version up to date: nothing
/// where it has seen every script, else the scripts it has not seen, in order,
/// and the statement that stores the new version.
pub fn setup(version: usize) -> (plan: Option<Migration>)
    ensures
        pending(version as nat).len() == 0 <==> plan is None,
        plan matches Some(m) ==> {
            &&& m.scripts_view() == pending(version as nat)
            &&& m.record@ == record_for(version as nat)
            &&& m.version == version_after(version as nat)
        },
{
    let all = migrations();
    assert(texts(all@).len() == all@.len());
    if version >= all.len() {
        return None;
    }
    let mut scripts: Vec<&'static str> = Vec::new();
    let mut next: usize = version;
    while next < all.len()
        invariant
            version <= next <= all.len(),
            texts(all@) == versions(),
            all@.len() == versions().len(),
            scripts@.len() == next - version,
            texts(scripts@) == versions().subrange(version as int, next as int),
        decreases all.len() - next,
    {
        let ghost before = scripts@;
        scripts.push(all[next]);
        assert forall|j: int| 0 <= j < scripts@.len() implies texts(scripts@)[j] == versions()[version
            + j] by {
            if j < before.len() {
                assert(texts(before)[j] == before[j]@);
                assert(versions().subrange(version as int, next as int)[j] == versions()[version
                    + j]);
            } else {
                assert(texts(all@)[next as int] == all@[next as int]@);
            }
        }
        next = next + 1;
        assert(texts(scripts@) =~= versions().subrange(version as int, next as int));
    }
    let record = if version == 0 {
        INSERT_VERSION
    } else {
        UPDATE_VERSION
    };
    Some(Migration { scripts, record, version: next })
}

/// Setting up twice is setting up once: a database that was brought up to
/// date has no script left to run, so nothing is decided for it, and its
/// version stays what it was.
pub proof fn lemma_setup_idempotent(version: nat)
    ensures
        version_after(version) >= latest(),
        pending(version_after(version)).len() == 0,
        version_after(version_after(version)) == version_after(version),
{
}

} // verus!

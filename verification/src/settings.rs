//! Settings: a closed set of keys, each mapped to a text.
//!
//! The store keeps a setting's value in RON, so that it can be read by eye.
//! This module says which record a value is written as, and which value a
//! record stands for. Reading and writing the store is the caller's part.

use vstd::prelude::*;
use vstd::string::StringExecFns;
use vstd::utf8::{decode_utf8, valid_utf8};
use crate::text::{lossy_text, strict_text, utf8_lossy};

verus! {

/// The error of `ron::to_string`.
#[verifier::external_type_specification]
#[verifier::external_body]
pub struct ExRonError(ron::error::Error);

/// The error of `ron::from_str`.
#[verifier::external_type_specification]
#[verifier::external_body]
pub struct ExRonSpannedError(ron::error::SpannedError);

/// The RON text that `ron::to_string` writes for the string `value`, or none
/// where it gives an error.
pub uninterp spec fn ron_encoded(value: Seq<char>) -> Option<Seq<char>>;

/// The string that `ron::from_str` reads from the RON text `text`, or none
/// where it gives an error.
pub uninterp spec fn ron_decoded(text: Seq<char>) -> Option<Seq<char>>;

/// Calls `ron::to_string` on a string. What it gives depends on the string
/// alone. For a string it gives no error: it writes a quote, the characters
/// with their escapes and a quote into a vector of bytes, and none of these
/// steps can fail.
#[verifier::external_body]
fn ron_to_string(value: &str) -> (r: Result<String, ron::error::Error>)
    ensures
        r is Ok,
        match r {
            Ok(text) => ron_encoded(value@) == Some(text@),
            Err(_) => ron_encoded(value@) is None,
        },
{
    ron::to_string(value)
}

/// Calls `ron::from_str` for a string. What it gives depends on the text
/// alone.
#[verifier::external_body]
fn ron_from_str(text: &str) -> (r: Result<String, ron::error::SpannedError>)
    ensures
        match r {
            Ok(value) => ron_decoded(text@) == Some(value@),
            Err(_) => ron_decoded(text@) is None,
        },
{
    ron::from_str::<String>(text)
}

/// The settings that there are.
#[derive(Clone, Copy, Debug, PartialEq, Eq, Structural)]
pub enum Key {
    /// The storage pool on which the volumes of machines are made.
    DiskPool,
}

/// The name under which the store keeps `key`.
pub open spec fn key_text(key: Key) -> Seq<char> {
    match key {
        Key::DiskPool => "disk_pool"@,
    }
}

impl Key {
    /// The name under which the store keeps this setting.
    pub fn as_str(&self) -> (name: &'static str)
        ensures
            name@ == key_text(*self),
    {
        match self {
            Key::DiskPool => "disk_pool",
        }
    }

    /// The setting that the store keeps under `name`, if there is one.
    pub fn from_name(name: &str) -> (key: Option<Key>)
        ensures
            match key {
                Some(k) => key_text(k) == name@,
                None => forall|k: Key| key_text(k) != name@,
            },
    {
        if crate::text::same_text(name, "disk_pool") {
            Some(Key::DiskPool)
        } else {
            None
        }
    }
}

/// Why a setting cannot be written or read.
#[derive(Debug)]
pub enum SettingsError {
    /// The value cannot be written as RON.
    Unencodable { key: Key },
    /// The record of the setting is not the RON of a string.
    Corrupt { key: Key, text: String },
    /// The record that the store holds under `name` is not the RON of a
    /// string.
    Unreadable { name: String, text: String },
}

/// The record that sets `key`, given the value in RON if it could be
/// written so: the name of the key, and that text.
pub fn record_of(key: Key, encoded: Option<String>) -> (r: Result<(String, String), SettingsError>)
    ensures
        match r {
            Ok((name, text)) => name@ == key_text(key) && encoded == Some(text),
            Err(e) => encoded is None && e == (SettingsError::Unencodable { key }),
        },
{
    match encoded {
        Some(text) => Ok((String::from_str(key.as_str()), text)),
        None => Err(SettingsError::Unencodable { key }),
    }
}

/// The record that sets `key` to `value`: the name of the key, and the value
/// in RON. Every value can be written so. The caller inserts the record into
/// the store and flushes the store.
pub fn set(key: Key, value: &str) -> (r: Result<(String, String), SettingsError>)
    ensures
        r is Ok,
        match r {
            Ok((name, text)) => name@ == key_text(key) && ron_encoded(value@) == Some(text@),
            Err(e) => ron_encoded(value@) is None && e == (SettingsError::Unencodable { key }),
        },
{
    match ron_to_string(value) {
        Ok(text) => record_of(key, Some(text)),
        Err(_) => record_of(key, None),
    }
}

/// The text of the stored bytes `bytes`: the text that they encode, or for
/// bytes that are not well-formed UTF-8 what `String::from_utf8_lossy` makes of
/// them.
pub open spec fn record_text(bytes: Seq<u8>) -> Seq<char> {
    if valid_utf8(bytes) {
        decode_utf8(bytes)
    } else {
        utf8_lossy(bytes)
    }
}

/// The value that the stored bytes `bytes` stand for, if they hold the RON of
/// a string.
pub open spec fn stored_value(bytes: Seq<u8>) -> Option<Seq<char>> {
    ron_decoded(record_text(bytes))
}

/// The value of `key`, given the text of its record and the string that the
/// text is the RON of, if it is that of any.
pub fn value_of(key: Key, text: String, decoded: Option<String>) -> (r: Result<
    Option<String>,
    SettingsError,
>)
    ensures
        match decoded {
            Some(value) => r == Ok::<Option<String>, SettingsError>(Some(value)),
            None => r == Err::<Option<String>, SettingsError>(SettingsError::Corrupt { key, text }),
        },
{
    match decoded {
        Some(value) => Ok(Some(value)),
        None => Err(SettingsError::Corrupt { key, text }),
    }
}

/// The value of `key`, given what the store holds under its name. A setting
/// that the store does not hold has no value; that is no error. A record that
/// is not the RON of a string is one.
pub fn get(key: Key, stored: Option<&[u8]>) -> (r: Result<Option<String>, SettingsError>)
    ensures
        match r {
            Ok(None) => stored is None,
            Ok(Some(value)) => stored matches Some(bytes) && stored_value(bytes@) == Some(value@),
            Err(e) => {
                &&& stored matches Some(bytes)
                &&& stored_value(bytes@) is None
                &&& e matches SettingsError::Corrupt { key: k, text }
                &&& k == key
                &&& text@ == record_text(bytes@)
            },
        },
{
    match stored {
        None => Ok(None),
        Some(bytes) => {
            let text = lossy_text(bytes);
            match ron_from_str(text.as_str()) {
                Ok(value) => value_of(key, text, Some(value)),
                Err(_) => value_of(key, text, None),
            }
        },
    }
}

/// Whether the key and the value of `record` are both well-formed UTF-8.
pub open spec fn is_text_record(record: (Vec<u8>, Vec<u8>)) -> bool {
    valid_utf8(record.0@) && valid_utf8(record.1@)
}

/// Whether `pair` is what `record` is listed as: the text of its key, and the
/// value that `get` gives for its bytes.
pub open spec fn lists_as(record: (Vec<u8>, Vec<u8>), pair: (Seq<char>, Seq<char>)) -> bool {
    &&& is_text_record(record)
    &&& pair.0 == decode_utf8(record.0@)
    &&& stored_value(record.1@) == Some(pair.1)
}

/// What the records of a store are listed as: for each record that is text,
/// in their order, the name and the value that the record stands for. A record
/// that is not text is left out. The first record that is text but not the RON
/// of a string makes the listing fail, with its name and its text.
pub open spec fn listed(records: Seq<(Vec<u8>, Vec<u8>)>) -> Result<
    Seq<(Seq<char>, Seq<char>)>,
    (Seq<char>, Seq<char>),
>
    decreases records.len(),
{
    if records.len() == 0 {
        Ok(Seq::empty())
    } else {
        let last = records.last();
        match listed(records.drop_last()) {
            Err(unreadable) => Err(unreadable),
            Ok(before) => if !is_text_record(last) {
                Ok(before)
            } else {
                match stored_value(last.1@) {
                    Some(value) => Ok(before.push((decode_utf8(last.0@), value))),
                    None => Err((decode_utf8(last.0@), record_text(last.1@))),
                }
            },
        }
    }
}

/// A record that the first `n` records fail on fails them all.
pub proof fn lemma_listed_fails_on(records: Seq<(Vec<u8>, Vec<u8>)>, n: int)
    requires
        0 <= n <= records.len(),
        listed(records.take(n)) is Err,
    ensures
        listed(records) == listed(records.take(n)),
    decreases records.len() - n,
{
    if n == records.len() {
        assert(records.take(n) == records);
    } else {
        assert(records.take(n + 1).drop_last() == records.take(n));
        lemma_listed_fails_on(records, n + 1);
    }
}

/// A listing gives the values that `get` gives: each pair of a listing is
/// the name of one of the records with the value that this record stands for.
pub proof fn lemma_listed_values_are_stored_values(records: Seq<(Vec<u8>, Vec<u8>)>, j: int)
    requires
        listed(records) is Ok,
        0 <= j < listed(records)->Ok_0.len(),
    ensures
        exists|i: int|
            0 <= i < records.len() && lists_as(#[trigger] records[i], listed(records)->Ok_0[j]),
    decreases records.len(),
{
    let head = records.drop_last();
    let last = records.last();
    let before = listed(head)->Ok_0;
    if j < before.len() {
        lemma_listed_values_are_stored_values(head, j);
        let i = choose|i: int| 0 <= i < head.len() && lists_as(#[trigger] head[i], before[j]);
        assert(records[i] == head[i]);
        assert(listed(records)->Ok_0[j] == before[j]);
    } else {
        assert(lists_as(records[records.len() - 1], listed(records)->Ok_0[j]));
    }
}

/// A listing leaves out no record that is text: each such record has its
/// pair in the listing.
pub proof fn lemma_text_records_are_listed(records: Seq<(Vec<u8>, Vec<u8>)>, i: int)
    requires
        listed(records) is Ok,
        0 <= i < records.len(),
        is_text_record(records[i]),
    ensures
        exists|j: int|
            0 <= j < listed(records)->Ok_0.len() && lists_as(
                records[i],
                #[trigger] listed(records)->Ok_0[j],
            ),
    decreases records.len(),
{
    let head = records.drop_last();
    let before = listed(head)->Ok_0;
    let all = listed(records)->Ok_0;
    if i < records.len() - 1 {
        assert(head[i] == records[i]);
        lemma_text_records_are_listed(head, i);
        let j = choose|j: int| 0 <= j < before.len() && lists_as(head[i], #[trigger] before[j]);
        assert(all[j] == before[j]);
    } else {
        assert(all[all.len() - 1] == (
            decode_utf8(records[i].0@),
            stored_value(records[i].1@)->0,
        ));
    }
}

/// The texts of a list of pairs of strings.
pub open spec fn pair_texts(pairs: Seq<(String, String)>) -> Seq<(Seq<char>, Seq<char>)> {
    pairs.map_values(|p: (String, String)| (p.0@, p.1@))
}

/// The pair that a record is listed as, given its name, its text and the
/// string that the text is the RON of, if it is that of any.
pub fn listed_pair(name: String, text: String, decoded: Option<String>) -> (r: Result<
    (String, String),
    SettingsError,
>)
    ensures
        match decoded {
            Some(value) => r == Ok::<(String, String), SettingsError>((name, value)),
            None => r == Err::<(String, String), SettingsError>(
                SettingsError::Unreadable { name, text },
            ),
        },
{
    match decoded {
        Some(value) => Ok((name, value)),
        None => Err(SettingsError::Unreadable { name, text }),
    }
}

/// All settings that the store holds, given its records in the order in which
/// the store hands them out: each name with its value, which is the value that
/// `get` gives for the record. A record whose key or value is not text is left
/// out. A record that is text but not the RON of a string is an error, as it is
/// for `get`; the first such record gives it.
pub fn list(records: &[(Vec<u8>, Vec<u8>)]) -> (r: Result<Vec<(String, String)>, SettingsError>)
    ensures
        match r {
            Ok(pairs) => listed(records@) == Ok::<
                Seq<(Seq<char>, Seq<char>)>,
                (Seq<char>, Seq<char>),
            >(pair_texts(pairs@)),
            Err(e) => {
                &&& e matches SettingsError::Unreadable { name, text }
                &&& listed(records@) == Err::<
                    Seq<(Seq<char>, Seq<char>)>,
                    (Seq<char>, Seq<char>),
                >((name@, text@))
            },
        },
{
    let mut pairs: Vec<(String, String)> = Vec::new();
    let mut i: usize = 0;
    assert(records@.take(0) == Seq::<(Vec<u8>, Vec<u8>)>::empty());
    assert(pair_texts(pairs@) == Seq::<(Seq<char>, Seq<char>)>::empty());
    while i < records.len()
        invariant
            i <= records.len(),
            listed(records@.take(i as int)) == Ok::<
                Seq<(Seq<char>, Seq<char>)>,
                (Seq<char>, Seq<char>),
            >(pair_texts(pairs@)),
        decreases records.len() - i,
    {
        proof {
            let next = records@.take(i + 1);
            assert(next.drop_last() == records@.take(i as int));
            assert(next.last() == records@[i as int]);
        }
        let key = strict_text(records[i].0.as_slice());
        let value = strict_text(records[i].1.as_slice());
        match (key, value) {
            (Some(name), Some(text)) => {
                let decoded = match ron_from_str(text.as_str()) {
                    Ok(value) => Some(value),
                    Err(_) => None,
                };
                match listed_pair(name, text, decoded) {
                    Ok(pair) => {
                        proof {
                            assert(pair_texts(pairs@.push(pair)) == pair_texts(pairs@).push(
                                (pair.0@, pair.1@),
                            ));
                        }
                        pairs.push(pair);
                    },
                    Err(e) => {
                        proof {
                            lemma_listed_fails_on(records@, i + 1);
                        }
                        return Err(e);
                    },
                }
            },
            _ => {},
        }
        i += 1;
    }
    assert(records@.take(records.len() as int) == records@);
    Ok(pairs)
}

} // verus!

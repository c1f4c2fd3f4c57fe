//! The node's datastore: the commands that read and write it, and what
//! is read off its entries.
//!
//! Keys are lists of strings. A command carries its key and its value
//! as JSON text, which `serde_json` writes.

use crate::seqs::Project;
use crate::text::{
    concat, contains, contains_text, join, joined, owned, parse_i64, parse_i64_spec, str_eq, views,
};
use vstd::prelude::*;
use vstd::string::*;

verus! {

/// How a write treats an entry that exists already, or is missing.
#[derive(Debug, Clone, Copy, PartialEq, Eq, Structural)]
pub enum DatastoreMode {
    MustCreate,
    MustReplace,
    CreateOrReplace,
    MustAppend,
    CreateOrAppend,
}

/// An entry of the datastore.
#[derive(Debug, Clone)]
pub struct DatastoreResponse {
    pub key: Vec<String>,
    pub generation: Option<u64>,
    pub hex: Option<String>,
    pub string: Option<String>,
}

/// The entries under a key.
#[derive(Debug, Clone)]
pub struct ListDatastore {
    pub datastore: Vec<DatastoreResponse>,
}

/// Why a datastore command could not be built.
#[derive(Debug, Clone, Copy, PartialEq, Eq, Structural)]
pub enum DatastoreError {
    /// A part of the key could not be written as JSON.
    KeyEncoding,
    /// The value could not be written as JSON.
    ValueEncoding,
}

/// The error type of `serde_json`.
#[verifier::external_type_specification]
#[verifier::external_body]
pub struct ExJsonError(serde_json::Error);

/// What `serde_json::to_string` makes of the string `s`: its JSON
/// text, quotes and escapes included, or none where it reports an
/// error.
pub uninterp spec fn json_text(s: Seq<char>) -> Option<Seq<char>>;

/// Calls `serde_json::to_string` on a string. What comes back is the
/// named outcome for that string: the text where the call succeeds,
/// none where it reports an error. Nothing is claimed about which of
/// the two it is.
#[verifier::external_body]
pub(crate) fn json_quote(s: &str) -> (r: Result<String, serde_json::Error>)
    ensures
        r matches Ok(t) ==> json_text(s@) == Some(t@),
        r is Err ==> json_text(s@) is None,
{
    serde_json::to_string(s)
}

impl DatastoreMode {
    /// The name of the mode on the command line.
    pub open spec fn name(&self) -> Seq<char> {
        match self {
            DatastoreMode::MustCreate => "must-create"@,
            DatastoreMode::MustReplace => "must-replace"@,
            DatastoreMode::CreateOrReplace => "create-or-replace"@,
            DatastoreMode::MustAppend => "must-append"@,
            DatastoreMode::CreateOrAppend => "create-or-append"@,
        }
    }

    /// The name of the mode on the command line.
    pub fn as_str(&self) -> (r: &'static str)
        ensures
            r@ == self.name(),
    {
        match self {
            DatastoreMode::MustCreate => "must-create",
            DatastoreMode::MustReplace => "must-replace",
            DatastoreMode::CreateOrReplace => "create-or-replace",
            DatastoreMode::MustAppend => "must-append",
            DatastoreMode::CreateOrAppend => "create-or-append",
        }
    }
}

/// A JSON array of the given members, each already JSON text.
pub open spec fn json_array(members: Seq<Seq<char>>) -> Seq<char> {
    "["@ + joined(members, ","@) + "]"@
}

/// Whether every part of a key can be written as JSON text.
pub open spec fn writable(key: Seq<String>) -> bool {
    forall|i: int| 0 <= i < key.len() ==> json_text(#[trigger] key[i]@) is Some
}

/// The JSON text of each part of a key that can be written.
pub open spec fn json_texts(parts: Seq<String>) -> Seq<Seq<char>> {
    Seq::new(parts.len(), |i: int| json_text(parts[i]@)->0)
}

/// A key as a JSON array of its parts.
pub open spec fn key_text(key: Seq<String>) -> Seq<char> {
    json_array(json_texts(key))
}

/// The arguments of the command that lists the entries under a key,
/// given as JSON text, or all entries where none is given.
pub open spec fn list_args(key: Option<Seq<char>>) -> Seq<Seq<char>> {
    match key {
        Some(k) => seq!["listdatastore"@, k],
        None => seq!["listdatastore"@],
    }
}

/// The arguments of the command that deletes the entry under a key,
/// given as JSON text.
pub open spec fn delete_args(key: Seq<char>) -> Seq<Seq<char>> {
    seq!["deldatastore"@, "-k"@, "key"@, key]
}

/// The arguments of the command that writes `value` under `key`.
pub open spec fn datastore_args(key: Seq<char>, value: Seq<char>, mode: DatastoreMode) -> Seq<
    Seq<char>,
> {
    seq![
        "datastore"@,
        "-k"@,
        "key="@ + key,
        "string="@ + value,
        "mode="@ + mode.name(),
    ]
}

/// A JSON array of the given members, each already JSON text.
pub fn json_array_of(members: &Vec<String>) -> (r: String)
    ensures
        r@ == json_array(views(members@)),
{
    let inner = join(members, ",");
    let mut out = String::from_str("[");
    out.append(inner.as_str());
    out.append("]");
    out
}

/// The arguments of the command that writes a string under a key,
/// given the key and the value as JSON text.
pub fn datastore_command(key_json: &str, value_json: &str, mode: DatastoreMode) -> (r: Vec<String>)
    ensures
        views(r@) == datastore_args(key_json@, value_json@, mode),
{
    let mut args: Vec<String> = Vec::new();
    args.push(String::from_str("datastore"));
    args.push(String::from_str("-k"));
    args.push(concat("key=", key_json));
    args.push(concat("string=", value_json));
    args.push(concat("mode=", mode.as_str()));
    proof {
        assert(views(args@) =~= datastore_args(key_json@, value_json@, mode));
    }
    args
}

/// The arguments of the command that lists the entries under a key,
/// given as JSON text, or all entries where none is given.
pub fn list_command(key_json: Option<&str>) -> (r: Vec<String>)
    ensures
        views(r@) == list_args(
            match key_json {
                Some(k) => Some(k@),
                None => None,
            },
        ),
{
    let mut args: Vec<String> = Vec::new();
    args.push(String::from_str("listdatastore"));
    match key_json {
        Some(k) => {
            args.push(owned(k));
            proof {
                assert(views(args@) =~= list_args(Some(k@)));
            }
        },
        None => {
            proof {
                assert(views(args@) =~= list_args(None));
            }
        },
    }
    args
}

/// The arguments of the command that deletes the entry under a key,
/// given as JSON text.
pub fn delete_command(key_json: &str) -> (r: Vec<String>)
    ensures
        views(r@) == delete_args(key_json@),
{
    let mut args: Vec<String> = Vec::new();
    args.push(String::from_str("deldatastore"));
    args.push(String::from_str("-k"));
    args.push(String::from_str("key"));
    args.push(owned(key_json));
    proof {
        assert(views(args@) =~= delete_args(key_json@));
    }
    args
}

/// The key as a JSON array, each part as JSON text: `Ok` exactly
/// where every part can be written, which is so for a key without
/// parts.
pub fn key_json(key: &Vec<String>) -> (r: Result<String, DatastoreError>)
    ensures
        r is Ok <==> writable(key@),
        r matches Ok(t) ==> t@ == key_text(key@),
        r matches Err(e) ==> e == DatastoreError::KeyEncoding,
{
    let mut quoted: Vec<String> = Vec::new();
    let mut i: usize = 0;
    while i < key.len()
        invariant
            i <= key.len(),
            quoted@.len() == i,
            forall|j: int| 0 <= j < i ==> json_text(#[trigger] key@[j]@) == Some(quoted@[j]@),
        decreases key.len() - i,
    {
        match json_quote(key[i].as_str()) {
            Ok(t) => {
                quoted.push(t);
            },
            Err(_) => {
                proof {
                    assert(json_text(key@[i as int]@) is None);
                }
                return Err(DatastoreError::KeyEncoding);
            },
        }
        i += 1;
    }
    proof {
        assert(views(quoted@) =~= json_texts(key@));
    }
    Ok(json_array_of(&quoted))
}

/// The arguments of the command that stores the string `value` under
/// `key`. The key and the value go into the command as JSON text; the
/// command is there exactly where both can be written. A part of the
/// key that cannot is reported before a value that cannot.
pub fn datastore_string(key: &Vec<String>, value: &str, mode: DatastoreMode) -> (r: Result<
    Vec<String>,
    DatastoreError,
>)
    ensures
        r is Ok <==> writable(key@) && json_text(value@) is Some,
        r matches Ok(args) ==> views(args@) == datastore_args(
            key_text(key@),
            json_text(value@)->0,
            mode,
        ),
        r matches Err(e) ==> (e == DatastoreError::KeyEncoding <==> !writable(key@)) && (e
            == DatastoreError::ValueEncoding <==> writable(key@)),
{
    let k = match key_json(key) {
        Ok(t) => t,
        Err(e) => {
            return Err(e);
        },
    };
    let v = match json_quote(value) {
        Ok(t) => t,
        Err(_) => {
            return Err(DatastoreError::ValueEncoding);
        },
    };
    Ok(datastore_command(k.as_str(), v.as_str(), mode))
}

/// The arguments of the command that lists the entries under `key`, or
/// all entries where no key is given: `Ok` exactly where no key is
/// given or every part of it can be written.
pub fn listdatastore(key: Option<&Vec<String>>) -> (r: Result<Vec<String>, DatastoreError>)
    ensures
        r is Ok <==> (key matches Some(k) ==> writable(k@)),
        r matches Ok(args) ==> views(args@) == list_args(
            match key {
                Some(k) => Some(key_text(k@)),
                None => None,
            },
        ),
        r matches Err(e) ==> e == DatastoreError::KeyEncoding,
{
    match key {
        Some(k) => {
            let j = match key_json(k) {
                Ok(t) => t,
                Err(e) => {
                    return Err(e);
                },
            };
            Ok(list_command(Some(j.as_str())))
        },
        None => Ok(list_command(None)),
    }
}

/// The arguments of the command that deletes the entry under `key`:
/// `Ok` exactly where every part of the key can be written.
pub fn _deldatastore(key: &Vec<String>) -> (r: Result<Vec<String>, DatastoreError>)
    ensures
        r is Ok <==> writable(key@),
        r matches Ok(args) ==> views(args@) == delete_args(key_text(key@)),
        r matches Err(e) ==> e == DatastoreError::KeyEncoding,
{
    let j = match key_json(key) {
        Ok(t) => t,
        Err(e) => {
            return Err(e);
        },
    };
    Ok(delete_command(j.as_str()))
}

/// What marks a response as an error.
pub open spec fn error_mark() -> Seq<char> {
    "\"code\":"@
}

/// Whether the node answered a command with an error: the response
/// holds an error code.
pub fn response_is_error(response: &str) -> (r: bool)
    ensures
        r == contains_text(response@, error_mark()),
{
    contains(response, "\"code\":")
}

// ---------------------------------------------------------------------
// Entries that the library keeps
// ---------------------------------------------------------------------

/// First part of every key that the library uses.
pub open spec fn namespace() -> Seq<char> {
    "lightdash"@
}

/// A note that the operator left on a peer.
#[derive(Debug, Clone)]
pub struct PeerNote {
    pub peer_id: String,
    pub note: String,
}

/// When the fees of a channel were last set.
#[derive(Debug, Clone)]
pub struct SetchannelTime {
    pub short_channel_id: String,
    pub timestamp: i64,
}

impl DatastoreResponse {
    /// Whether the entry's key is `[lightdash, purpose, <one more part>]`.
    pub open spec fn has_purpose(&self, purpose: Seq<char>) -> bool {
        self.key@.len() == 3 && self.key@[0]@ == namespace() && self.key@[1]@ == purpose
    }

    /// Whether the entry's key is `[lightdash, purpose, <one more part>]`.
    pub fn is_for(&self, purpose: &str) -> (r: bool)
        ensures
            r == self.has_purpose(purpose@),
    {
        self.key.len() == 3 && str_eq(self.key[0].as_str(), "lightdash") && str_eq(
            self.key[1].as_str(),
            purpose,
        )
    }
}

/// Reads peer notes off datastore entries: those under
/// `[lightdash, peer_note, <peer id>]` that hold a string.
pub struct PeerNotes;

/// Reads fee-change times off datastore entries: those under
/// `[lightdash, last_setchannel, <short channel id>]` that hold a
/// string which is a decimal number.
pub struct SetchannelTimes;

impl Project<DatastoreResponse, PeerNote> for PeerNotes {
    open spec fn image(&self, item: &DatastoreResponse) -> Option<PeerNote> {
        if item.has_purpose("peer_note"@) && item.string is Some {
            Some(PeerNote { peer_id: item.key@[2], note: item.string->0 })
        } else {
            None
        }
    }

    fn apply(&self, item: &DatastoreResponse) -> (r: Option<PeerNote>) {
        if item.is_for("peer_note") {
            match &item.string {
                Some(note) => Some(PeerNote { peer_id: item.key[2].clone(), note: note.clone() }),
                None => None,
            }
        } else {
            None
        }
    }
}

impl Project<DatastoreResponse, SetchannelTime> for SetchannelTimes {
    open spec fn image(&self, item: &DatastoreResponse) -> Option<SetchannelTime> {
        if item.has_purpose("last_setchannel"@) && item.string is Some && parse_i64_spec(
            item.string->0@,
        ) is Some {
            Some(
                SetchannelTime {
                    short_channel_id: item.key@[2],
                    timestamp: parse_i64_spec(item.string->0@)->0,
                },
            )
        } else {
            None
        }
    }

    fn apply(&self, item: &DatastoreResponse) -> (r: Option<SetchannelTime>) {
        if item.is_for("last_setchannel") {
            match &item.string {
                Some(text) => match parse_i64(text.as_str()) {
                    Some(timestamp) => Some(
                        SetchannelTime { short_channel_id: item.key[2].clone(), timestamp },
                    ),
                    None => None,
                },
                None => None,
            }
        } else {
            None
        }
    }
}

} // verus!

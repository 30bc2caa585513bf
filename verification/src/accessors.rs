//! The typed accessors: each owns a fixed well-known key and a codec, and
//! translates between a domain value and the text the raw cache stores.

use vstd::prelude::*;

use crate::decimal::parse_u64;
use crate::decimal::parse_u64_spec;
use crate::decimal::u64_to_decimal;
use crate::decimal::dec_of;
use crate::hex_codec::bytes_of_hex;
use crate::hex_codec::hex_decode;
use crate::hex_codec::hex_encode;
use crate::hex_codec::hex_of;
use crate::hex_codec::valid_hex;
use crate::json_codec::node_state_from_json;
use crate::json_codec::node_state_json;
use crate::json_codec::node_state_to_json;
use crate::json_codec::string_list_from_json;
use crate::json_codec::string_list_json;
use crate::json_codec::string_list_to_json;
use crate::json_codec::NodeState;
use crate::store::PersistError;
use crate::store::PersistResult;
use crate::store::SqliteStorage;

verus! {

/// The well-known key of the node-state snapshot.
pub open spec fn node_state_key() -> Seq<char> {
    "node_state"@
}

/// The well-known key of the last backup timestamp.
pub open spec fn last_backup_time_key() -> Seq<char> {
    "last_backup_time"@
}

/// The well-known key of the credential bytes.
pub open spec fn gl_credentials_key() -> Seq<char> {
    "gl_credentials"@
}

/// The well-known key of the static backup list.
pub open spec fn static_backup_key() -> Seq<char> {
    "static_backup"@
}

impl SqliteStorage {
    /// Stores the JSON text of `state` under the node-state key.
    pub fn set_node_state(&mut self, state: &NodeState) -> (r: PersistResult<()>)
        requires
            old(self).wf(),
        ensures
            r is Ok,
            final(self).wf(),
            final(self)@ == old(self)@.insert(
                node_state_key(),
                node_state_json(state.id@, state.block_height, state.channels_balance_msat),
            ),
    {
        let text = node_state_to_json(state);
        self.update_cached_item("node_state".to_owned(), text)
    }

    /// Reads the node-state key: missing when never set, the decoded
    /// snapshot when the stored text is one the encoder produces, and a
    /// serialization error exactly when stored text decodes as no
    /// snapshot.
    pub fn get_node_state(&self) -> (r: PersistResult<Option<NodeState>>)
        requires
            self.wf(),
        ensures
            !self@.contains_key(node_state_key()) ==> r == Ok::<Option<NodeState>, PersistError>(
                None,
            ),
            r matches Ok(Some(_)) ==> self@.contains_key(node_state_key()),
            forall|id: Seq<char>, h: u32, msat: u64|
                self@.contains_key(node_state_key()) && self@[node_state_key()] == node_state_json(
                    id,
                    h,
                    msat,
                ) ==> (r matches Ok(Some(s)) && s.id@ == id && s.block_height == h
                    && s.channels_balance_msat == msat),
            r matches Err(e) ==> e == PersistError::Serialization && self@.contains_key(
                node_state_key(),
            ) && (forall|id: Seq<char>, h: u32, msat: u64|
                self@[node_state_key()] != node_state_json(id, h, msat)),
    {
        match self.get_cached_item("node_state".to_owned()) {
            Err(e) => Err(e),
            Ok(None) => Ok(None),
            Ok(Some(text)) => match node_state_from_json(text.as_str()) {
                Some(s) => Ok(Some(s)),
                None => Err(PersistError::Serialization),
            },
        }
    }

    /// Stores `t` as decimal text under the backup-time key.
    pub fn set_last_backup_time(&mut self, t: u64) -> (r: PersistResult<()>)
        requires
            old(self).wf(),
        ensures
            r is Ok,
            final(self).wf(),
            final(self)@ == old(self)@.insert(last_backup_time_key(), dec_of(t as nat)),
    {
        let text = u64_to_decimal(t);
        self.update_cached_item("last_backup_time".to_owned(), text)
    }

    /// Reads the backup-time key and parses the stored decimal text. A
    /// parse failure is swallowed: malformed text yields a missing-value
    /// result, never an error.
    pub fn get_last_backup_time(&self) -> (r: PersistResult<Option<u64>>)
        requires
            self.wf(),
        ensures
            r == Ok::<Option<u64>, PersistError>(
                if self@.contains_key(last_backup_time_key()) {
                    parse_u64_spec(self@[last_backup_time_key()])
                } else {
                    None
                },
            ),
    {
        match self.get_cached_item("last_backup_time".to_owned()) {
            Err(e) => Err(e),
            Ok(None) => Ok(None),
            Ok(Some(text)) => Ok(parse_u64(text.as_str())),
        }
    }

    /// Hex-encodes `creds` (lowercase, two digits per byte) and stores the
    /// text under the credentials key.
    pub fn set_gl_credentials(&mut self, creds: Vec<u8>) -> (r: PersistResult<()>)
        requires
            old(self).wf(),
        ensures
            r is Ok,
            final(self).wf(),
            final(self)@ == old(self)@.insert(gl_credentials_key(), hex_of(creds@)),
    {
        let text = hex_encode(&creds);
        self.update_cached_item("gl_credentials".to_owned(), text)
    }

    /// Reads the credentials key: missing when never set, the decoded
    /// bytes when the stored text is valid hex, and an encoding error
    /// exactly when it is not — malformed credential material is never
    /// silently treated as absent.
    pub fn get_gl_credentials(&self) -> (r: PersistResult<Option<Vec<u8>>>)
        requires
            self.wf(),
        ensures
            match r {
                Ok(Some(b)) => self@.contains_key(gl_credentials_key()) && valid_hex(
                    self@[gl_credentials_key()],
                ) && b@ == bytes_of_hex(self@[gl_credentials_key()]),
                Ok(None) => !self@.contains_key(gl_credentials_key()),
                Err(e) => self@.contains_key(gl_credentials_key()) && !valid_hex(
                    self@[gl_credentials_key()],
                ) && e == PersistError::Encoding,
            },
    {
        match self.get_cached_item("gl_credentials".to_owned()) {
            Err(e) => Err(e),
            Ok(None) => Ok(None),
            Ok(Some(text)) => match hex_decode(text.as_str()) {
                Some(b) => Ok(Some(b)),
                None => Err(PersistError::Encoding),
            },
        }
    }

    /// Stores the JSON array text of the ordered `backup` list under the
    /// static-backup key.
    pub fn set_static_backup(&mut self, backup: Vec<String>) -> (r: PersistResult<()>)
        requires
            old(self).wf(),
        ensures
            r is Ok,
            final(self).wf(),
            final(self)@ == old(self)@.insert(
                static_backup_key(),
                string_list_json(backup.deep_view()),
            ),
    {
        let text = string_list_to_json(&backup);
        self.update_cached_item("static_backup".to_owned(), text)
    }

    /// Reads the static-backup key: missing when never set, the decoded
    /// list in its stored order when the text is one the encoder produces,
    /// and a serialization error exactly when the stored text decodes as
    /// no list.
    pub fn get_static_backup(&self) -> (r: PersistResult<Option<Vec<String>>>)
        requires
            self.wf(),
        ensures
            !self@.contains_key(static_backup_key()) ==> r == Ok::<
                Option<Vec<String>>,
                PersistError,
            >(None),
            r matches Ok(Some(_)) ==> self@.contains_key(static_backup_key()),
            forall|items: Seq<Seq<char>>|
                self@.contains_key(static_backup_key()) && self@[static_backup_key()]
                    == string_list_json(items) ==> (r matches Ok(Some(v)) && v.deep_view()
                    == items),
            r matches Err(e) ==> e == PersistError::Serialization && self@.contains_key(
                static_backup_key(),
            ) && (forall|items: Seq<Seq<char>>| self@[static_backup_key()] != string_list_json(
                items,
            )),
    {
        match self.get_cached_item("static_backup".to_owned()) {
            Err(e) => Err(e),
            Ok(None) => Ok(None),
            Ok(Some(text)) => match string_list_from_json(text.as_str()) {
                Some(v) => Ok(Some(v)),
                None => Err(PersistError::Serialization),
            },
        }
    }
}

} // verus!

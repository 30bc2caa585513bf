//! The laws of the cache, stated over its model: a map from key text to
//! value text, where `update_cached_item` inserts, `delete_cached_item`
//! removes, and `get_cached_item` looks up, as the operations' own
//! contracts state.

use vstd::prelude::*;

use crate::accessors::gl_credentials_key;
use crate::accessors::last_backup_time_key;
use crate::decimal::dec_of;
use crate::decimal::parse_u64_spec;
use crate::decimal::lemma_decimal_round_trip;
use crate::hex_codec::bytes_of_hex;
use crate::hex_codec::hex_of;
use crate::hex_codec::lemma_hex_round_trip;
use crate::hex_codec::valid_hex;

verus! {

/// Law: `set(k, v)` followed by `get(k)` returns exactly `v` — after an
/// insert, `k` is bound to the inserted value.
pub proof fn lemma_set_then_get(m: Map<Seq<char>, Seq<char>>, k: Seq<char>, v: Seq<char>)
    ensures
        m.insert(k, v).contains_key(k),
        m.insert(k, v)[k] == v,
{
}

/// Law: `delete(k)` followed by `get(k)` is a missing-value result,
/// whether or not `k` was previously bound.
pub proof fn lemma_delete_then_get(m: Map<Seq<char>, Seq<char>>, k: Seq<char>)
    ensures
        !m.remove(k).contains_key(k),
{
}

/// Law: `set(k, v1)` followed by `set(k, v2)` followed by `get(k)` returns
/// `v2` — an upsert overwrites, never appends.
pub proof fn lemma_upsert_overwrites(
    m: Map<Seq<char>, Seq<char>>,
    k: Seq<char>,
    v1: Seq<char>,
    v2: Seq<char>,
)
    ensures
        m.insert(k, v1).insert(k, v2).contains_key(k),
        m.insert(k, v1).insert(k, v2)[k] == v2,
{
}

/// Law: after `set_last_backup_time(t)` the stored decimal text parses
/// back to `t`, so `get_last_backup_time` returns exactly `t`.
pub proof fn lemma_backup_time_round_trip(m: Map<Seq<char>, Seq<char>>, t: u64)
    ensures
        ({
            let stored = m.insert(last_backup_time_key(), dec_of(t as nat));
            stored.contains_key(last_backup_time_key()) && parse_u64_spec(
                stored[last_backup_time_key()],
            ) == Some(t)
        }),
{
    lemma_decimal_round_trip(t);
}

/// Law: after `set_gl_credentials(b)` the stored hex text is valid and
/// decodes back to `b` — the empty sequence included — so
/// `get_gl_credentials` returns exactly `b`.
pub proof fn lemma_credentials_round_trip(m: Map<Seq<char>, Seq<char>>, b: Seq<u8>)
    ensures
        ({
            let stored = m.insert(gl_credentials_key(), hex_of(b));
            stored.contains_key(gl_credentials_key()) && valid_hex(stored[gl_credentials_key()])
                && bytes_of_hex(stored[gl_credentials_key()]) == b
        }),
{
    lemma_hex_round_trip(b);
}

} // verus!

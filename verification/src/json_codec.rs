//! JSON text for the node-state snapshot and the static backup list. The
//! rendering serde_json produces takes pages to state, so each encoding is
//! a named result: a function of the encoded fields alone. Decoding is
//! specified against those names: parsing the exact text an encoder
//! produced yields the encoded value back.

use vstd::prelude::*;

verus! {

/// The last known node-state snapshot remembered across restarts.
#[derive(Debug, Clone, PartialEq, Eq)]
pub struct NodeState {
    pub id: String,
    pub block_height: u32,
    pub channels_balance_msat: u64,
}

/// The JSON text serde_json renders for a node state with these fields.
pub uninterp spec fn node_state_json(id: Seq<char>, block_height: u32, channels_balance_msat: u64) -> Seq<char>;

/// The JSON array text serde_json renders for this ordered list of items.
pub uninterp spec fn string_list_json(items: Seq<Seq<char>>) -> Seq<char>;

/// Relies on serde_json: rendering an object with these three fields is
/// deterministic (the default map keeps keys in a fixed order), so the
/// result is a function of the fields alone, named `node_state_json`.
#[verifier::external_body]
pub(crate) fn node_state_to_json(state: &NodeState) -> (r: String)
    ensures
        r@ == node_state_json(state.id@, state.block_height, state.channels_balance_msat),
{
    let mut m = serde_json::Map::new();
    m.insert("id".to_owned(), serde_json::Value::String(state.id.clone()));
    m.insert("block_height".to_owned(), serde_json::Value::from(state.block_height));
    m.insert(
        "channels_balance_msat".to_owned(),
        serde_json::Value::from(state.channels_balance_msat),
    );
    serde_json::Value::Object(m).to_string()
}

/// Relies on serde_json::from_str: parsing the exact text the node-state
/// encoder produced yields an equal value, field for field; on any other
/// text nothing is promised beyond returning.
#[verifier::external_body]
pub(crate) fn node_state_from_json(text: &str) -> (r: Option<NodeState>)
    ensures
        match r {
            Some(s) => forall|id: Seq<char>, h: u32, msat: u64|
                text@ == node_state_json(id, h, msat) ==> (s.id@ == id && s.block_height == h
                    && s.channels_balance_msat == msat),
            None => forall|id: Seq<char>, h: u32, msat: u64|
                text@ != node_state_json(id, h, msat),
        },
{
    let v: serde_json::Value = serde_json::from_str(text).ok()?;
    let id = v.get("id")?.as_str()?.to_owned();
    let block_height = u32::try_from(v.get("block_height")?.as_u64()?).ok()?;
    let channels_balance_msat = v.get("channels_balance_msat")?.as_u64()?;
    Some(NodeState { id, block_height, channels_balance_msat })
}

/// Relies on serde_json::to_string: rendering a vector of strings never
/// fails and is a function of the items alone, named `string_list_json`.
#[verifier::external_body]
pub(crate) fn string_list_to_json(items: &Vec<String>) -> (r: String)
    ensures
        r@ == string_list_json(items.deep_view()),
{
    serde_json::to_string(items).unwrap()
}

/// Relies on serde_json::from_str: parsing the exact text the list encoder
/// produced yields the same items in the same order; on any other text
/// nothing is promised beyond returning.
#[verifier::external_body]
pub(crate) fn string_list_from_json(text: &str) -> (r: Option<Vec<String>>)
    ensures
        match r {
            Some(v) => forall|items: Seq<Seq<char>>|
                text@ == string_list_json(items) ==> v.deep_view() == items,
            None => forall|items: Seq<Seq<char>>| text@ != string_list_json(items),
        },
{
    serde_json::from_str(text).ok()
}

} // verus!

//! The settings of an enterprise and of its proxy.
use vstd::prelude::*;
use crate::text::{parse_u32, parse_unsigned};

verus! {

/// A card of the enterprise and its limit.
#[derive(Debug, Clone, Copy, PartialEq, Eq, Structural)]
pub struct CardConfig {
    pub id: u32,
    pub limit: u32,
}

/// The enterprise's id, balance and cards.
#[derive(Debug, Clone)]
pub struct EnterpriseConfig {
    pub id: u32,
    pub balance: u32,
    pub cards: Vec<CardConfig>,
}

/// Where the proxy runs and how to reach the cluster.
#[derive(Debug, Clone)]
pub struct ProxyConfig {
    pub host: String,
    pub proxy_port: u32,
    pub internode_port: u32,
    pub node_count: u32,
}

/// A setting that must read as a `u32`.
pub open spec fn setting(s: Seq<char>) -> Option<u32> {
    match parse_unsigned(s, u32::MAX as nat) {
        Some(n) => Some(n as u32),
        None => None,
    }
}

impl ProxyConfig {
    /// The proxy's settings from their texts: the host as it is, and the
    /// three numbers; `None` when one of them does not read as a `u32`.
    pub fn from_values(host: String, proxy_port: &str, internode_port: &str, node_count: &str) -> (r: Option<Self>)
        ensures
            (setting(proxy_port@) is Some && setting(internode_port@) is Some && setting(node_count@) is Some) <==> r is Some,
            r matches Some(c) ==> c.host@ == host@ && Some(c.proxy_port) == setting(proxy_port@) && Some(c.internode_port)
                == setting(internode_port@) && Some(c.node_count) == setting(node_count@),
    {
        let proxy_port = match parse_u32(proxy_port) {
            Some(n) => n,
            None => return None,
        };
        let internode_port = match parse_u32(internode_port) {
            Some(n) => n,
            None => return None,
        };
        let node_count = match parse_u32(node_count) {
            Some(n) => n,
            None => return None,
        };
        Some(ProxyConfig { host, proxy_port, internode_port, node_count })
    }
}


/// The `u32` setting `key` of a TOML text, as the config crate reads it;
/// `None` when the text is not TOML or the setting is missing or not a
/// `u32`.
pub uninterp spec fn toml_u32(text: Seq<char>, key: Seq<char>) -> Option<u32>;

/// The `cards` setting of a TOML text, as the config crate reads it: each
/// card's `id` and `limit`, in order; `None` when the text is not TOML, the
/// setting is missing or not a list of tables of `u32`, or a card lacks one
/// of the two.
pub uninterp spec fn toml_cards(text: Seq<char>) -> Option<Seq<(u32, u32)>>;

/// `Config::builder().add_source(File::from_str(text, Toml)).build()` and
/// then `get::<u32>(key)` of the config crate. What it gives for a text is
/// the crate's reading of TOML, only named here (`toml_u32`).
#[verifier::external_body]
fn toml_get_u32(text: &str, key: &str) -> (r: Option<u32>)
    ensures
        r == toml_u32(text@, key@),
{
    let source = config::File::from_str(text, config::FileFormat::Toml);
    config::Config::builder().add_source(source).build().ok()?.get::<u32>(key).ok()
}

/// The same reading with `get::<Vec<HashMap<String, u32>>>("cards")`, each
/// card taken as its `id` and `limit`; only named here (`toml_cards`).
#[verifier::external_body]
fn toml_get_cards(text: &str) -> (r: Option<Vec<(u32, u32)>>)
    ensures
        match r {
            Some(v) => toml_cards(text@) == Some(v@),
            None => toml_cards(text@) is None,
        },
{
    let source = config::File::from_str(text, config::FileFormat::Toml);
    let settings = config::Config::builder().add_source(source).build().ok()?;
    let cards = settings.get::<Vec<std::collections::HashMap<String, u32>>>("cards").ok()?;
    cards.iter().map(|c| Some((*c.get("id")?, *c.get("limit")?))).collect()
}

impl EnterpriseConfig {
    /// The enterprise's settings from the TOML text of its configuration:
    /// its `id`, its `balance` and its `cards`; `None` when one of them
    /// cannot be read.
    pub fn from_toml(text: &str) -> (r: Option<Self>)
        ensures
            r is Some <==> (toml_u32(text@, "id"@) is Some && toml_u32(text@, "balance"@) is Some
                && toml_cards(text@) is Some),
            r matches Some(c) ==> Some(c.id) == toml_u32(text@, "id"@) && Some(c.balance) == toml_u32(
                text@,
                "balance"@,
            ) && Some(c.cards@.map_values(|k: CardConfig| (k.id, k.limit))) == toml_cards(text@),
    {
        let id = match toml_get_u32(text, "id") {
            Some(n) => n,
            None => return None,
        };
        let balance = match toml_get_u32(text, "balance") {
            Some(n) => n,
            None => return None,
        };
        let pairs = match toml_get_cards(text) {
            Some(v) => v,
            None => return None,
        };
        let mut cards: Vec<CardConfig> = Vec::new();
        let mut i: usize = 0;
        while i < pairs.len()
            invariant
                i <= pairs.len(),
                cards.len() == i,
                forall|j: int| 0 <= j < i ==> (#[trigger] cards@[j]).id == pairs@[j].0 && cards@[j].limit == pairs@[j].1,
            decreases pairs.len() - i,
        {
            let (card_id, limit) = pairs[i];
            cards.push(CardConfig { id: card_id, limit });
            i = i + 1;
        }
        assert(cards@.map_values(|k: CardConfig| (k.id, k.limit)) =~= pairs@);
        Some(EnterpriseConfig { id, balance, cards })
    }
}

} // verus!

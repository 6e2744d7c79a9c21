//! An enterprise: its cards, the commands it sends to the cluster through its
//! proxy, and what it logs of the messages that come back.
use vstd::prelude::*;
use crate::cluster::messages::{ProtocolMessage, Role, Select, TransactionResponse, Update};
use crate::enterprise::admin::AdminCommand;
use crate::enterprise::config::{CardConfig, EnterpriseConfig};
use crate::enterprise::logger::LogEvent;

verus! {

/// The limit of each card in a list of (card, limit) pairs; a later pair for
/// the same card wins.
pub open spec fn limits_of(list: Seq<(u32, u32)>) -> Map<u32, u32>
    decreases list.len(),
{
    if list.len() == 0 {
        Map::empty()
    } else {
        limits_of(list.drop_last()).insert(list.last().0, list.last().1)
    }
}

/// The (card, limit) pairs of a configuration's cards, in order.
pub open spec fn pairs_of(cards: Seq<CardConfig>) -> Seq<(u32, u32)> {
    cards.map_values(|c: CardConfig| (c.id, c.limit))
}

/// A card has a limit exactly when some pair names it.
pub proof fn lemma_limits_of_contains(list: Seq<(u32, u32)>, card_id: u32)
    ensures
        limits_of(list).contains_key(card_id) <==> exists|i: int| 0 <= i < list.len() && #[trigger] list[i].0
            == card_id,
    decreases list.len(),
{
    if list.len() > 0 {
        let init = list.drop_last();
        lemma_limits_of_contains(init, card_id);
        if limits_of(list).contains_key(card_id) && card_id != list.last().0 {
            let i = choose|i: int| 0 <= i < init.len() && #[trigger] init[i].0 == card_id;
            assert(list[i].0 == card_id);
        }
        if exists|i: int| 0 <= i < list.len() && #[trigger] list[i].0 == card_id {
            let i = choose|i: int| 0 <= i < list.len() && #[trigger] list[i].0 == card_id;
            if i < list.len() - 1 {
                assert(init[i].0 == card_id);
            }
        }
    }
}

/// What an enterprise knows of itself.
pub struct EnterpriseView {
    pub id: u32,
    pub balance: u32,
    pub cards: Map<u32, u32>,
    pub proxy_set: bool,
}

/// An enterprise with its cards, and whether its proxy is known yet.
pub struct Enterprise {
    id: u32,
    balance: u32,
    card_limits: Vec<(u32, u32)>,
    proxy_set: bool,
}

impl View for Enterprise {
    type V = EnterpriseView;

    closed spec fn view(&self) -> EnterpriseView {
        EnterpriseView {
            id: self.id,
            balance: self.balance,
            cards: limits_of(self.card_limits@),
            proxy_set: self.proxy_set,
        }
    }
}

/// What the enterprise makes of a message from the cluster.
#[derive(Debug, Clone)]
pub enum Incoming {
    /// A line for the log.
    Log(LogEvent),
    /// An answer with nothing to show.
    Quiet,
    /// A message that the enterprise does not expect.
    Unknown,
}

/// The message that a command sends, when the proxy is known; an update of
/// a card that the enterprise does not have sends nothing.
pub open spec fn command_message(e: EnterpriseView, cmd: AdminCommand) -> Option<ProtocolMessage> {
    if !e.proxy_set {
        None
    } else {
        match cmd {
            AdminCommand::UpdateEnterpriseLimit { limit, update_type } => Some(
                ProtocolMessage::Update(Update::EnterpriseLimitUpdate { enterprise_id: e.id, limit, update_type }),
            ),
            AdminCommand::UpdateCardLimit { card_id, limit, update_type } => if e.cards.contains_key(card_id) {
                Some(
                    ProtocolMessage::Update(
                        Update::CardLimitUpdate { enterprise_id: e.id, card_id, limit, update_type },
                    ),
                )
            } else {
                None
            },
            AdminCommand::CardView { card_id } => Some(
                ProtocolMessage::Select(Select::CardView { enterprise_id: e.id, card_id }),
            ),
            AdminCommand::EnterpriseView {  } => Some(
                ProtocolMessage::Select(Select::EnterpriseView { enterprise_id: e.id }),
            ),
        }
    }
}

impl Enterprise {
    /// The enterprise of a configuration, with no proxy yet.
    pub fn new(config: EnterpriseConfig) -> (r: Self)
        ensures
            r@.id == config.id,
            r@.balance == config.balance,
            r@.cards == limits_of(pairs_of(config.cards@)),
            !r@.proxy_set,
    {
        let mut card_limits: Vec<(u32, u32)> = Vec::new();
        let mut i: usize = 0;
        while i < config.cards.len()
            invariant
                i <= config.cards.len(),
                card_limits@ == pairs_of(config.cards@).take(i as int),
            decreases config.cards.len() - i,
        {
            let c = config.cards[i];
            card_limits.push((c.id, c.limit));
            i = i + 1;
            assert(card_limits@ =~= pairs_of(config.cards@).take(i as int));
        }
        assert(card_limits@ =~= pairs_of(config.cards@));
        Enterprise { id: config.id, balance: config.balance, card_limits, proxy_set: false }
    }

    /// Whether the enterprise has the card.
    pub fn has_card(&self, card_id: u32) -> (r: bool)
        ensures
            r == self@.cards.contains_key(card_id),
    {
        let mut i: usize = 0;
        while i < self.card_limits.len()
            invariant
                i <= self.card_limits.len(),
                forall|j: int| 0 <= j < i ==> #[trigger] self.card_limits@[j].0 != card_id,
            decreases self.card_limits.len() - i,
        {
            if self.card_limits[i].0 == card_id {
                proof {
                    lemma_limits_of_contains(self.card_limits@, card_id);
                    assert(self.card_limits@[i as int].0 == card_id);
                }
                return true;
            }
            i = i + 1;
        }
        proof {
            lemma_limits_of_contains(self.card_limits@, card_id);
        }
        false
    }

    /// The message that an administrator's command sends to the cluster.
    pub fn handle_admin_command(&self, cmd: AdminCommand) -> (r: Option<ProtocolMessage>)
        ensures
            r == command_message(self@, cmd),
    {
        if !self.proxy_set {
            return None;
        }
        match cmd {
            AdminCommand::UpdateEnterpriseLimit { limit, update_type } => Some(
                ProtocolMessage::Update(Update::EnterpriseLimitUpdate { enterprise_id: self.id, limit, update_type }),
            ),
            AdminCommand::UpdateCardLimit { card_id, limit, update_type } => {
                if self.has_card(card_id) {
                    Some(
                        ProtocolMessage::Update(
                            Update::CardLimitUpdate { enterprise_id: self.id, card_id, limit, update_type },
                        ),
                    )
                } else {
                    None
                }
            },
            AdminCommand::CardView { card_id } => Some(
                ProtocolMessage::Select(Select::CardView { enterprise_id: self.id, card_id }),
            ),
            AdminCommand::EnterpriseView {  } => Some(
                ProtocolMessage::Select(Select::EnterpriseView { enterprise_id: self.id }),
            ),
        }
    }

    /// Records that the proxy is known, and gives the two messages it sends
    /// first: who the enterprise is, then its balance and its cards' limits.
    pub fn set_proxy_addr(&mut self) -> (r: Vec<ProtocolMessage>)
        ensures
            final(self)@ == (EnterpriseView { proxy_set: true, ..old(self)@ }),
            r.len() == 2,
            r[0] == (ProtocolMessage::StartUp { from: old(self)@.id, role: Role::Proxy }),
            r[1] matches ProtocolMessage::EnterpriseCreate { enterprise_id, enterprise_balance, card_limits }
                && enterprise_id == old(self)@.id && enterprise_balance == old(self)@.balance
                && limits_of(card_limits@) == old(self)@.cards,
    {
        self.proxy_set = true;
        let mut card_limits: Vec<(u32, u32)> = Vec::new();
        let mut i: usize = 0;
        while i < self.card_limits.len()
            invariant
                i <= self.card_limits.len(),
                card_limits@ == self.card_limits@.take(i as int),
            decreases self.card_limits.len() - i,
        {
            card_limits.push(self.card_limits[i]);
            i = i + 1;
            assert(card_limits@ =~= self.card_limits@.take(i as int));
        }
        assert(card_limits@ =~= self.card_limits@);
        let mut r: Vec<ProtocolMessage> = Vec::new();
        r.push(ProtocolMessage::StartUp { from: self.id, role: Role::Proxy });
        r.push(
            ProtocolMessage::EnterpriseCreate {
                enterprise_id: self.id,
                enterprise_balance: self.balance,
                card_limits,
            },
        );
        r
    }

    /// What the enterprise logs of a message from the cluster. A payment is
    /// logged with `payment_station`, the station that its payment id names.
    pub fn handle_incoming(&self, msg: ProtocolMessage, payment_station: u32) -> (r: Incoming)
        ensures
            match msg {
                ProtocolMessage::Update(Update::Payment { card_id, cost, .. }) => r == Incoming::Log(
                    LogEvent::Transaction { card_id, amount: cost, station_id: payment_station },
                ),
                ProtocolMessage::TransactionResponse(
                    TransactionResponse::CardViewResponse { response, card_id, .. },
                ) => match response {
                    Some(info) => r == Incoming::Log(
                        LogEvent::CardView {
                            card_id,
                            usage: info.card_usage,
                            limit: match info.card_limit {
                                Some(l) => l,
                                None => 0,
                            },
                        },
                    ),
                    None => r is Quiet,
                },
                ProtocolMessage::TransactionResponse(TransactionResponse::EnterpriseViewResponse { response, .. }) => match response {
                    Some(data) => r == Incoming::Log(LogEvent::EnterpriseView { usage: data.usage, limit: data.limit }),
                    None => r is Quiet,
                },
                ProtocolMessage::FirstMsg { from, data } => r == Incoming::Log(LogEvent::FirstMsg { from, data }),
                _ => r is Unknown,
            },
    {
        match msg {
            ProtocolMessage::Update(Update::Payment { card_id, cost, .. }) => Incoming::Log(
                LogEvent::Transaction { card_id, amount: cost, station_id: payment_station },
            ),
            ProtocolMessage::TransactionResponse(TransactionResponse::CardViewResponse { response, card_id, .. }) => {
                match response {
                    Some(info) => Incoming::Log(
                        LogEvent::CardView {
                            card_id,
                            usage: info.card_usage,
                            limit: match info.card_limit {
                                Some(l) => l,
                                None => 0,
                            },
                        },
                    ),
                    None => Incoming::Quiet,
                }
            },
            ProtocolMessage::TransactionResponse(TransactionResponse::EnterpriseViewResponse { response, .. }) => {
                match response {
                    Some(data) => Incoming::Log(LogEvent::EnterpriseView { usage: data.usage, limit: data.limit }),
                    None => Incoming::Quiet,
                }
            },
            ProtocolMessage::FirstMsg { from, data } => Incoming::Log(LogEvent::FirstMsg { from, data }),
            _ => Incoming::Unknown,
        }
    }
}

} // verus!

//! An enterprise's data on one node: its usage and limit and those of its
//! cards, the queries on them and the decisions on updates.
use vstd::prelude::*;
use std::collections::HashMap;
use crate::cluster::messages::{
    CardLimitUpdate, CardView, CardViewResponse, CardViewResponseData, Create, EnterpriseLimitUpdate, EnterpriseView,
    EnterpriseViewResponse, UpdatePayment,
    EnterpriseViewResponseData, InternodeResponse, InternodeSelect, PaymentViewResponseInfo,
    SendBroadcastOfSetOwnData, SetOwnData, UpdateRegister, UpdateType,
};
use crate::cluster::spending_info::{CardState, SpendingInfoRegister, limit_or_zero};

verus! {

broadcast use vstd::std_specs::hash::group_hash_axioms;

/// The data of an enterprise as a mathematical value.
pub struct RepositoryView {
    pub id: u32,
    pub current_usage: u32,
    pub limit: Option<u32>,
    pub cards: Map<u32, CardState>,
}

/// The data of one enterprise.
pub struct Repository {
    id: u32,
    current_usage: u32,
    limit: Option<u32>,
    cards: HashMap<u32, SpendingInfoRegister>,
}

/// `m` with the cards of `list` added, each with no usage; a later entry for
/// the same card wins.
pub open spec fn with_cards(m: Map<u32, CardState>, list: Seq<(u32, u32)>) -> Map<u32, CardState>
    decreases list.len(),
{
    if list.len() == 0 {
        m
    } else {
        let (id, limit) = list.last();
        with_cards(m, list.drop_last()).insert(
            id,
            CardState { card_id: id, current_usage: 0, limit: Some(limit) },
        )
    }
}

/// The data after writing registers.
pub open spec fn apply_set_own_data(v: RepositoryView, data: UpdateRegister) -> RepositoryView {
    match data {
        UpdateRegister::EnterpriseLimit { limit, usage } => RepositoryView {
            limit: Some(limit),
            current_usage: usage,
            ..v
        },
        UpdateRegister::CardLimitOrUsage {
            card_id,
            card_limit,
            card_usage,
            enterprise_limit,
            enterprise_usage,
        } => RepositoryView {
            cards: if v.cards.contains_key(card_id) {
                v.cards.insert(
                    card_id,
                    CardState { limit: Some(card_limit), current_usage: card_usage, ..v.cards[card_id] },
                )
            } else {
                v.cards.insert(
                    card_id,
                    CardState { card_id, current_usage: v.current_usage, limit: Some(card_limit) },
                )
            },
            limit: Some(enterprise_limit),
            current_usage: enterprise_usage,
            ..v
        },
    }
}

/// What a card query answers.
pub open spec fn card_view_data(v: RepositoryView, card_id: u32) -> Option<CardViewResponseData> {
    if v.cards.contains_key(card_id) {
        Some(
            CardViewResponseData {
                enterprise_usage: v.current_usage,
                enterprise_limit: v.limit,
                card_usage: v.cards[card_id].current_usage,
                card_limit: v.cards[card_id].limit,
            },
        )
    } else {
        None
    }
}

/// What an enterprise query answers.
pub open spec fn enterprise_view_data(v: RepositoryView) -> EnterpriseViewResponseData {
    EnterpriseViewResponseData { usage: v.current_usage, limit: limit_or_zero(v.limit) as u32 }
}

/// A limit after a change of `amount`.
pub open spec fn changed_limit(current: u32, amount: u32, update_type: UpdateType) -> int {
    match update_type {
        UpdateType::Increment => current + amount,
        UpdateType::Decrement => current - amount,
        UpdateType::SetValue => amount as int,
    }
}

/// The decision on a payment of `cost` by card `card_id`. A missing limit
/// lets any payment through; the payment is accepted when both usages stay
/// within their limits.
pub open spec fn payment_outcome(v: RepositoryView, initial_leader: Option<u32>, card_id: u32, cost: u32) -> SendBroadcastOfSetOwnData {
    let card = v.cards[card_id];
    let enterprise_limit: int = match v.limit {
        Some(l) => l as int,
        None => v.current_usage + cost,
    };
    let card_limit: int = match card.limit {
        Some(l) => l as int,
        None => card.current_usage + cost,
    };
    if v.current_usage + cost > enterprise_limit || card.current_usage + cost > card_limit {
        SendBroadcastOfSetOwnData {
            command: SetOwnData {
                enterprise_id: v.id,
                data: UpdateRegister::CardLimitOrUsage {
                    card_id: card.card_id,
                    card_limit: limit_or_zero(card.limit) as u32,
                    card_usage: card.current_usage,
                    enterprise_limit: limit_or_zero(v.limit) as u32,
                    enterprise_usage: v.current_usage,
                },
            },
            initial_leader,
            result: false,
            do_broadcast: false,
        }
    } else {
        SendBroadcastOfSetOwnData {
            command: SetOwnData {
                enterprise_id: v.id,
                data: UpdateRegister::CardLimitOrUsage {
                    card_id: card.card_id,
                    card_limit: card_limit as u32,
                    card_usage: (card.current_usage + cost) as u32,
                    enterprise_limit: limit_or_zero(v.limit) as u32,
                    enterprise_usage: (v.current_usage + cost) as u32,
                },
            },
            initial_leader,
            result: true,
            do_broadcast: true,
        }
    }
}

/// The answer to a forwarded query.
pub open spec fn internode_answer(v: RepositoryView, select: InternodeSelect) -> InternodeResponse {
    match select {
        InternodeSelect::CardViewFromInternode { transaction_id, card_id, enterprise_id } => {
            InternodeResponse::CardViewResponse {
                response: card_view_data(v, card_id),
                enterprise_id,
                card_id,
                transaction_id,
            }
        },
        InternodeSelect::CardViewForUpdateFromInternode { transaction_id, card_id, initial_leader, .. } => {
            InternodeResponse::CardViewForUpdateResponse {
                response: card_view_data(v, card_id),
                transaction_id,
                initial_leader,
            }
        },
        InternodeSelect::EnterpriseViewForUpdateFromInternode { transaction_id, initial_leader, .. } => {
            InternodeResponse::EnterpriseViewForUpdateResponse {
                response: Some(enterprise_view_data(v)),
                transaction_id,
                initial_leader,
            }
        },
        InternodeSelect::EnterpriseViewFromInternode { transaction_id, .. } => {
            InternodeResponse::EnterpriseViewResponse { response: Some(enterprise_view_data(v)), transaction_id }
        },
        InternodeSelect::PaymentView { enterprise_id, card_id, transaction_id, initial_leader } => {
            InternodeResponse::PaymentViewResponse {
                response: if v.cards.contains_key(card_id) {
                    Some(
                        PaymentViewResponseInfo {
                            card_limit: v.cards[card_id].limit,
                            card_usage: v.cards[card_id].current_usage,
                            enterprise_limit: v.limit,
                            enterprise_usage: v.current_usage,
                        },
                    )
                } else {
                    None
                },
                transaction_id,
                enterprise_id,
                card_id,
                initial_leader,
            }
        },
    }
}

/// The decision on a change of a card's limit.
pub open spec fn card_limit_outcome(v: RepositoryView, msg: CardLimitUpdate) -> Option<SendBroadcastOfSetOwnData> {
    let card = v.cards[msg.card_id];
    match card.limit {
        None => None,
        Some(current) => Some(
            SendBroadcastOfSetOwnData {
                command: SetOwnData {
                    enterprise_id: v.id,
                    data: UpdateRegister::CardLimitOrUsage {
                        card_id: card.card_id,
                        card_limit: changed_limit(current, msg.limit, msg.update_type) as u32,
                        card_usage: card.current_usage,
                        enterprise_limit: limit_or_zero(v.limit) as u32,
                        enterprise_usage: v.current_usage,
                    },
                },
                initial_leader: msg.initial_leader,
                result: true,
                do_broadcast: true,
            },
        ),
    }
}

impl View for Repository {
    type V = RepositoryView;

    closed spec fn view(&self) -> RepositoryView {
        RepositoryView {
            id: self.id,
            current_usage: self.current_usage,
            limit: self.limit,
            cards: self.cards@.map_values(|r: SpendingInfoRegister| r@),
        }
    }
}

impl Repository {
    /// Each card is registered under its own id.
    pub closed spec fn wf(&self) -> bool {
        forall|k: u32| #[trigger] self.cards@.contains_key(k) ==> self.cards@[k]@.card_id == k
    }

    /// The data of a new enterprise: no usage, no limit, no cards.
    pub fn new(id: u32) -> (r: Self)
        ensures
            r.wf(),
            r@ == (RepositoryView { id, current_usage: 0, limit: None, cards: Map::empty() }),
    {
        let r = Self { id, current_usage: 0, limit: None, cards: HashMap::new() };
        assert(r@.cards =~= Map::<u32, CardState>::empty());
        r
    }

    /// Sets the enterprise's limit and registers its cards.
    pub fn handle_create(&mut self, msg: &Create)
        requires
            old(self).wf(),
        ensures
            final(self).wf(),
            final(self)@ == (RepositoryView {
                limit: Some(msg.enterprise_limit),
                cards: with_cards(old(self)@.cards, msg.card_limits@),
                ..old(self)@
            }),
    {
        self.limit = Some(msg.enterprise_limit);
        let ghost start = self@.cards;
        let mut i: usize = 0;
        while i < msg.card_limits.len()
            invariant
                i <= msg.card_limits@.len(),
                self.wf(),
                start == old(self)@.cards,
                self@.id == old(self)@.id,
                self@.current_usage == old(self)@.current_usage,
                self@.limit == Some(msg.enterprise_limit),
                self@.cards == with_cards(start, msg.card_limits@.take(i as int)),
            decreases msg.card_limits.len() - i,
        {
            let (id, limit) = msg.card_limits[i];
            let ghost before = self.cards@;
            self.cards.insert(id, SpendingInfoRegister::new(id, Some(limit)));
            proof {
                let l = msg.card_limits@.take(i + 1);
                assert(l.drop_last() =~= msg.card_limits@.take(i as int));
                assert(l.last() == (id, limit));
                assert(self.cards@.map_values(|r: SpendingInfoRegister| r@) =~= before.map_values(
                    |r: SpendingInfoRegister| r@,
                ).insert(id, CardState { card_id: id, current_usage: 0, limit: Some(limit) }));
            }
            i = i + 1;
        }
        assert(msg.card_limits@.take(i as int) =~= msg.card_limits@);
    }

    /// Writes registers into the data. A card that is not registered yet is
    /// registered with the enterprise's usage from before the write.
    pub fn handle_set_own_data(&mut self, data: UpdateRegister)
        requires
            old(self).wf(),
        ensures
            final(self).wf(),
            final(self)@ == apply_set_own_data(old(self)@, data),
    {
        match data {
            UpdateRegister::EnterpriseLimit { limit, usage } => {
                self.limit = Some(limit);
                self.current_usage = usage;
            },
            UpdateRegister::CardLimitOrUsage {
                card_id,
                card_limit,
                card_usage,
                enterprise_limit,
                enterprise_usage,
            } => {
                let ghost before = self.cards@;
                let mut card = match self.cards.get(&card_id) {
                    Some(c) => {
                        let mut c = *c;
                        c.set_limit(Some(card_limit));
                        c.set_usage(card_usage);
                        c
                    },
                    None => {
                        let mut c = SpendingInfoRegister::new(card_id, Some(card_limit));
                        c.set_usage(self.current_usage);
                        c
                    },
                };
                self.cards.insert(card_id, card);
                proof {
                    assert(self.cards@.map_values(|r: SpendingInfoRegister| r@) =~= before.map_values(
                        |r: SpendingInfoRegister| r@,
                    ).insert(card_id, card@));
                }
                self.limit = Some(enterprise_limit);
                self.current_usage = enterprise_usage;
            },
        }
    }

    /// The answer to a card query.
    pub fn card_view(&self, msg: CardView) -> (r: CardViewResponse)
        ensures
            r.transaction_id == msg.transaction_id,
            r.enterprise_id == self@.id,
            r.card_id == msg.card_id,
            r.response == card_view_data(self@, msg.card_id),
    {
        let CardView { transaction_id, card_id } = msg;
        let data = match self.cards.get(&card_id) {
            Some(reg) => Some(CardViewResponseData {
                enterprise_usage: self.current_usage,
                enterprise_limit: self.limit,
                card_usage: reg.get_current_usage(),
                card_limit: reg.get_limit(),
            }),
            None => None,
        };
        CardViewResponse { transaction_id, enterprise_id: self.id, card_id, response: data }
    }

    /// The answer to an enterprise query.
    pub fn enterprise_view(&self, msg: EnterpriseView) -> (r: EnterpriseViewResponse)
        ensures
            r.transaction_id == msg.transaction_id,
            r.enterprise_id == self@.id,
            r.data == Some(enterprise_view_data(self@)),
    {
        EnterpriseViewResponse {
            transaction_id: msg.transaction_id,
            enterprise_id: self.id,
            data: Some(EnterpriseViewResponseData { usage: self.current_usage, limit: self.limit_or_zero() }),
        }
    }

    /// The answer to a query forwarded by another node.
    pub fn internode_select(&self, select: InternodeSelect) -> (r: InternodeResponse)
        ensures
            r == internode_answer(self@, select),
    {
        match select {
            InternodeSelect::CardViewFromInternode { transaction_id, card_id, enterprise_id } => {
                InternodeResponse::CardViewResponse {
                    response: self.card_data(card_id),
                    enterprise_id,
                    card_id,
                    transaction_id,
                }
            },
            InternodeSelect::CardViewForUpdateFromInternode {
                transaction_id,
                card_id,
                initial_leader,
                ..
            } => InternodeResponse::CardViewForUpdateResponse {
                response: self.card_data(card_id),
                transaction_id,
                initial_leader,
            },
            InternodeSelect::EnterpriseViewForUpdateFromInternode {
                transaction_id,
                initial_leader,
                ..
            } => InternodeResponse::EnterpriseViewForUpdateResponse {
                response: Some(EnterpriseViewResponseData { usage: self.current_usage, limit: self.limit_or_zero() }),
                transaction_id,
                initial_leader,
            },
            InternodeSelect::EnterpriseViewFromInternode { transaction_id, .. } => {
                InternodeResponse::EnterpriseViewResponse {
                    response: Some(EnterpriseViewResponseData { usage: self.current_usage, limit: self.limit_or_zero() }),
                    transaction_id,
                }
            },
            InternodeSelect::PaymentView { enterprise_id, card_id, transaction_id, initial_leader } => {
                let response = match self.cards.get(&card_id) {
                    Some(reg) => Some(PaymentViewResponseInfo {
                        card_limit: reg.get_limit(),
                        card_usage: reg.get_current_usage(),
                        enterprise_limit: self.limit,
                        enterprise_usage: self.current_usage,
                    }),
                    None => None,
                };
                InternodeResponse::PaymentViewResponse {
                    response,
                    transaction_id,
                    enterprise_id,
                    card_id,
                    initial_leader,
                }
            },
        }
    }

    fn card_data(&self, card_id: u32) -> (r: Option<CardViewResponseData>)
        ensures
            r == card_view_data(self@, card_id),
    {
        match self.cards.get(&card_id) {
            Some(reg) => Some(CardViewResponseData {
                card_usage: reg.get_current_usage(),
                card_limit: reg.get_limit(),
                enterprise_usage: self.current_usage,
                enterprise_limit: self.limit,
            }),
            None => None,
        }
    }

    /// The decision on a change of the enterprise's limit: the new limit is
    /// written with the current usage and sent to every node. The data itself
    /// changes only when that write comes back.
    pub fn enterprise_limit_update(&self, msg: EnterpriseLimitUpdate) -> (r: SendBroadcastOfSetOwnData)
        requires
            0 <= changed_limit(limit_or_zero(self@.limit) as u32, msg.limit, msg.update_type) <= u32::MAX,
        ensures
            r == (SendBroadcastOfSetOwnData {
                command: SetOwnData {
                    enterprise_id: self@.id,
                    data: UpdateRegister::EnterpriseLimit {
                        limit: changed_limit(limit_or_zero(self@.limit) as u32, msg.limit, msg.update_type) as u32,
                        usage: self@.current_usage,
                    },
                },
                initial_leader: msg.initial_leader,
                result: true,
                do_broadcast: true,
            }),
            r.command.data matches UpdateRegister::EnterpriseLimit { limit: n, .. } && {
                &&& msg.update_type == UpdateType::Increment ==> n == limit_or_zero(self@.limit) + msg.limit
                &&& msg.update_type == UpdateType::Decrement ==> n + msg.limit == limit_or_zero(self@.limit)
                &&& msg.update_type == UpdateType::SetValue ==> n == msg.limit
            },
    {
        let current = self.limit_or_zero();
        let limit = match msg.update_type {
            UpdateType::Increment => current + msg.limit,
            UpdateType::Decrement => current - msg.limit,
            UpdateType::SetValue => msg.limit,
        };
        SendBroadcastOfSetOwnData {
            command: SetOwnData {
                enterprise_id: self.id,
                data: UpdateRegister::EnterpriseLimit { limit, usage: self.current_usage },
            },
            initial_leader: msg.initial_leader,
            result: true,
            do_broadcast: true,
        }
    }

    /// The decision on a change of a card's limit: `None` for a card without
    /// a limit; else the card's new limit with its usage, and the
    /// enterprise's limit and usage, sent to every node.
    pub fn card_limit_update(&self, msg: CardLimitUpdate) -> (r: Option<SendBroadcastOfSetOwnData>)
        requires
            self.wf(),
            self@.cards.contains_key(msg.card_id),
            self@.cards[msg.card_id].limit matches Some(l) ==> 0 <= changed_limit(l, msg.limit, msg.update_type) <= u32::MAX,
        ensures
            r == card_limit_outcome(self@, msg),
    {
        let reg = match self.cards.get(&msg.card_id) {
            Some(reg) => reg,
            None => {
                assert(false);
                return None;
            },
        };
        let current_limit = match reg.get_limit() {
            Some(l) => l,
            None => return None,
        };
        let new_limit = match msg.update_type {
            UpdateType::Increment => current_limit + msg.limit,
            UpdateType::Decrement => current_limit - msg.limit,
            UpdateType::SetValue => msg.limit,
        };
        let mut new_register = SpendingInfoRegister::new(reg.get_card_id(), Some(new_limit));
        new_register.set_usage(reg.get_current_usage());
        Some(SendBroadcastOfSetOwnData {
            command: SetOwnData {
                enterprise_id: self.id,
                data: UpdateRegister::CardLimitOrUsage {
                    card_id: new_register.get_card_id(),
                    card_limit: new_limit,
                    card_usage: new_register.get_current_usage(),
                    enterprise_limit: self.limit_or_zero(),
                    enterprise_usage: self.current_usage,
                },
            },
            initial_leader: msg.initial_leader,
            result: true,
            do_broadcast: true,
        })
    }

    /// The decision on a payment: accepted when both the enterprise's and the
    /// card's usage stay within their limits (a missing limit allows any
    /// payment); an accepted payment is sent to every node with the new
    /// usages, a refused one goes back unbroadcast with the current data.
    pub fn update_payment(&self, msg: &UpdatePayment) -> (r: SendBroadcastOfSetOwnData)
        requires
            self.wf(),
            self@.cards.contains_key(msg.card_id),
            self@.current_usage + msg.cost <= u32::MAX,
            self@.cards[msg.card_id].current_usage + msg.cost <= u32::MAX,
        ensures
            r == payment_outcome(self@, msg.initial_leader, msg.card_id, msg.cost),
    {
        let reg = match self.cards.get(&msg.card_id) {
            Some(reg) => reg,
            None => {
                assert(false);
                return SendBroadcastOfSetOwnData {
                    command: SetOwnData {
                        enterprise_id: self.id,
                        data: UpdateRegister::EnterpriseLimit { limit: 0, usage: 0 },
                    },
                    initial_leader: msg.initial_leader,
                    result: false,
                    do_broadcast: false,
                };
            },
        };
        let enterprise_limit = match self.limit {
            Some(l) => l,
            None => self.current_usage + msg.cost,
        };
        let card_limit = match reg.get_limit() {
            Some(l) => l,
            None => reg.get_current_usage() + msg.cost,
        };
        if self.current_usage + msg.cost > enterprise_limit || reg.get_current_usage() + msg.cost > card_limit {
            SendBroadcastOfSetOwnData {
                command: SetOwnData {
                    enterprise_id: self.id,
                    data: UpdateRegister::CardLimitOrUsage {
                        card_id: reg.get_card_id(),
                        card_limit: match reg.get_limit() {
                            Some(l) => l,
                            None => 0,
                        },
                        card_usage: reg.get_current_usage(),
                        enterprise_limit: self.limit_or_zero(),
                        enterprise_usage: self.current_usage,
                    },
                },
                initial_leader: msg.initial_leader,
                result: false,
                do_broadcast: false,
            }
        } else {
            let new_enterprise_usage = self.current_usage + msg.cost;
            let mut new_register = SpendingInfoRegister::new(reg.get_card_id(), Some(card_limit));
            new_register.set_usage(reg.get_current_usage() + msg.cost);
            SendBroadcastOfSetOwnData {
                command: SetOwnData {
                    enterprise_id: self.id,
                    data: UpdateRegister::CardLimitOrUsage {
                        card_id: new_register.get_card_id(),
                        card_limit: match new_register.get_limit() {
                            Some(l) => l,
                            None => 0,
                        },
                        card_usage: new_register.get_current_usage(),
                        enterprise_limit: self.limit_or_zero(),
                        enterprise_usage: new_enterprise_usage,
                    },
                },
                initial_leader: msg.initial_leader,
                result: true,
                do_broadcast: true,
            }
        }
    }

    /// The enterprise's limit, 0 when it has none.
    pub fn limit_value(&self) -> (r: u32)
        ensures
            r == limit_or_zero(self@.limit),
    {
        self.limit_or_zero()
    }

    /// The enterprise's usage.
    pub fn usage(&self) -> (r: u32)
        ensures
            r == self@.current_usage,
    {
        self.current_usage
    }

    /// The state of a card, if the enterprise has it.
    pub fn card_state(&self, card_id: u32) -> (r: Option<CardState>)
        ensures
            r is Some <==> self@.cards.contains_key(card_id),
            r matches Some(c) ==> c == self@.cards[card_id],
    {
        match self.cards.get(&card_id) {
            Some(reg) => Some(CardState {
                card_id: reg.get_card_id(),
                current_usage: reg.get_current_usage(),
                limit: reg.get_limit(),
            }),
            None => None,
        }
    }

    fn limit_or_zero(&self) -> (r: u32)
        ensures
            r == limit_or_zero(self@.limit),
    {
        match self.limit {
            Some(l) => l,
            None => 0,
        }
    }
}

/// Every card of the view is registered under its own id.
pub open spec fn cards_keyed_by_id(v: RepositoryView) -> bool {
    forall|k: u32| #[trigger] v.cards.contains_key(k) ==> v.cards[k].card_id == k
}

impl Repository {
    pub proof fn lemma_view_wf(&self)
        requires
            self.wf(),
        ensures
            cards_keyed_by_id(self@),
    {
    }
}

/// A payment is accepted exactly when it keeps both the enterprise's and the
/// card's usage within their limits; once its write is applied, both usages
/// have grown by the cost and are still within the limits. A refused payment
/// is not broadcast, and writing back what it carries changes nothing.
pub proof fn law_payment_respects_limits(v: RepositoryView, initial_leader: Option<u32>, card_id: u32, cost: u32)
    requires
        cards_keyed_by_id(v),
        v.cards.contains_key(card_id),
        v.limit is Some,
        v.cards[card_id].limit is Some,
    ensures
        ({
            let b = payment_outcome(v, initial_leader, card_id, cost);
            let after = apply_set_own_data(v, b.command.data);
            &&& b.result <==> (v.current_usage + cost <= v.limit->0 && v.cards[card_id].current_usage + cost
                <= v.cards[card_id].limit->0)
            &&& b.result ==> {
                &&& b.do_broadcast
                &&& after.current_usage == v.current_usage + cost
                &&& after.current_usage <= after.limit->0
                &&& after.limit == v.limit
                &&& after.cards[card_id].current_usage == v.cards[card_id].current_usage + cost
                &&& after.cards[card_id].current_usage <= after.cards[card_id].limit->0
                &&& after.cards[card_id].limit == v.cards[card_id].limit
            }
            &&& !b.result ==> !b.do_broadcast && after == v
        }),
{
    let b = payment_outcome(v, initial_leader, card_id, cost);
    let after = apply_set_own_data(v, b.command.data);
    if !b.result {
        assert(after.cards =~= v.cards);
    }
}

/// A card query on data just written answers what was written, for a card
/// that was registered.
pub proof fn law_card_view_reads_write(
    v: RepositoryView,
    card_id: u32,
    card_limit: u32,
    card_usage: u32,
    enterprise_limit: u32,
    enterprise_usage: u32,
)
    requires
        v.cards.contains_key(card_id),
    ensures
        card_view_data(
            apply_set_own_data(
                v,
                UpdateRegister::CardLimitOrUsage {
                    card_id,
                    card_limit,
                    card_usage,
                    enterprise_limit,
                    enterprise_usage,
                },
            ),
            card_id,
        ) == Some(
            CardViewResponseData {
                enterprise_usage,
                enterprise_limit: Some(enterprise_limit),
                card_usage,
                card_limit: Some(card_limit),
            },
        ),
{
}

/// An enterprise query on data just written answers what was written.
pub proof fn law_enterprise_view_reads_write(v: RepositoryView, limit: u32, usage: u32)
    ensures
        enterprise_view_data(apply_set_own_data(v, UpdateRegister::EnterpriseLimit { limit, usage }))
            == (EnterpriseViewResponseData { usage, limit }),
{
}

/// Setting the enterprise's limit and applying the write makes a query
/// answer the new limit and the unchanged usage.
pub proof fn law_set_limit_then_view(v: RepositoryView, initial_leader: Option<u32>, limit: u32)
    ensures
        ({
            let data = UpdateRegister::EnterpriseLimit {
                limit: changed_limit(limit_or_zero(v.limit) as u32, limit, UpdateType::SetValue) as u32,
                usage: v.current_usage,
            };
            enterprise_view_data(apply_set_own_data(v, data)) == (EnterpriseViewResponseData {
                usage: v.current_usage,
                limit,
            })
        }),
{
}

/// A change of a card's limit writes the card's limit with the change
/// applied: the amount added for an increment, taken away for a decrement,
/// or the amount itself for a set. The card's usage and the enterprise's
/// limit and usage are written as they are, and the write is sent to every
/// node. A card without a limit gets no write.
pub proof fn law_card_limit_change(v: RepositoryView, msg: CardLimitUpdate)
    requires
        cards_keyed_by_id(v),
        v.cards.contains_key(msg.card_id),
    ensures
        ({
            let card = v.cards[msg.card_id];
            let r = card_limit_outcome(v, msg);
            &&& card.limit is None ==> r is None
            &&& card.limit matches Some(l) ==> (r matches Some(b) && {
                &&& b.result && b.do_broadcast
                &&& b.initial_leader == msg.initial_leader
                &&& b.command.enterprise_id == v.id
                &&& b.command.data matches UpdateRegister::CardLimitOrUsage { card_id: c, card_limit: n, card_usage: cu, enterprise_limit: el, enterprise_usage: eu }
                    && c == msg.card_id && cu == card.current_usage && eu == v.current_usage
                    && (v.limit matches Some(x) ==> el == x) && (v.limit is None ==> el == 0) && {
                    &&& (msg.update_type == UpdateType::Increment && l + msg.limit <= u32::MAX) ==> n == l + msg.limit
                    &&& (msg.update_type == UpdateType::Decrement && msg.limit <= l) ==> n + msg.limit == l
                    &&& msg.update_type == UpdateType::SetValue ==> n == msg.limit
                }
            })
        }),
{
}

/// A limit changed by an amount: the amount added for an increment, taken
/// away for a decrement, or the amount itself for a set.
pub proof fn law_changed_limit(current: u32, amount: u32)
    ensures
        changed_limit(current, amount, UpdateType::Increment) == current + amount,
        changed_limit(current, amount, UpdateType::Decrement) + amount == current,
        changed_limit(current, amount, UpdateType::SetValue) == amount,
{
}

/// A payment on this node is accepted exactly when, after it, the
/// enterprise's usage is within the enterprise's limit and the card's usage
/// within the card's limit, a missing limit bounding nothing. An accepted
/// payment writes both usages grown by the cost and is sent to every node;
/// a refused one writes them unchanged and is not sent.
pub proof fn law_payment_decision(v: RepositoryView, initial_leader: Option<u32>, card_id: u32, cost: u32)
    requires
        cards_keyed_by_id(v),
        v.cards.contains_key(card_id),
        v.current_usage + cost <= u32::MAX,
        v.cards[card_id].current_usage + cost <= u32::MAX,
    ensures
        ({
            let card = v.cards[card_id];
            let b = payment_outcome(v, initial_leader, card_id, cost);
            let fits_enterprise = v.limit matches Some(l) ==> v.current_usage + cost <= l;
            let fits_card = card.limit matches Some(l) ==> card.current_usage + cost <= l;
            &&& b.result <==> (fits_enterprise && fits_card)
            &&& b.do_broadcast == b.result
            &&& b.initial_leader == initial_leader
            &&& b.command.enterprise_id == v.id
            &&& b.command.data matches UpdateRegister::CardLimitOrUsage { card_id: c, card_usage: cu, enterprise_usage: eu, .. }
                && c == card_id && (b.result ==> cu == card.current_usage + cost && eu == v.current_usage + cost)
                && (!b.result ==> cu == card.current_usage && eu == v.current_usage)
        }),
{
}

} // verus!

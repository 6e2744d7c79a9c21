//! The repositories of one node, and where each query and update goes.
use vstd::prelude::*;
use std::collections::HashMap;
use crate::cluster::messages::{
    CardLimitUpdate, CardView, CardViewResponse, Create, EnterpriseView, EnterpriseLimitUpdate, EnterpriseViewResponse,
    InternodeResponse, InternodeSelect, Select, SendBroadcastOfSetOwnData, SetOwnData, Update,
    UpdatePayment, UpdateType,
};
use crate::cluster::repository::{
    Repository, RepositoryView, apply_set_own_data, card_limit_outcome, card_view_data,
    changed_limit, enterprise_view_data, internode_answer, payment_outcome, with_cards,
};
use crate::cluster::spending_info::limit_or_zero;
use crate::cluster::transaction_with_id::{
    InternodeSelectWithId, SelectWithId, UpdateWithId, select_to_internode, update_to_internode,
};

verus! {

broadcast use vstd::std_specs::hash::group_hash_axioms;

/// Where a client's query ends.
#[derive(Debug, Clone)]
pub enum SelectOutcome {
    /// The card is known here.
    CardView(CardViewResponse),
    /// The enterprise is known here.
    EnterpriseView(EnterpriseViewResponse),
    /// The data is not here: ask the other nodes.
    Forward(InternodeSelect),
}

/// Where an update ends.
#[derive(Debug, Clone)]
pub enum UpdateOutcome {
    /// Decided here; `None` for a card that has no limit to change.
    Decided(Option<SendBroadcastOfSetOwnData>),
    /// The data is not here: fetch it from the other nodes.
    Forward(InternodeSelect),
}

/// An update that this node cannot carry out.
#[derive(Debug, Clone, Copy, PartialEq, Eq, Structural)]
pub enum RepositoryFault {
    /// The enterprise has no such card.
    CardNotFound,
    /// A limit or a usage would leave the range of `u32`.
    OutOfRange,
}

/// The repositories of one node, by enterprise id.
pub struct RepositoryManager {
    enterprises: HashMap<u32, Repository>,
}

/// The decision on an update, given the node's repositories.
pub open spec fn update_decision(m: Map<u32, RepositoryView>, msg: UpdateWithId) -> Result<UpdateOutcome, RepositoryFault> {
    let id = msg.update.spec_enterprise_id();
    if !m.contains_key(id) {
        Ok(UpdateOutcome::Forward(update_to_internode(msg.update, msg.transaction_id, msg.initial_leader)))
    } else {
        let v = m[id];
        match msg.update {
            Update::EnterpriseLimitUpdate { limit, update_type, .. } => {
                let n = changed_limit(limit_or_zero(v.limit) as u32, limit, update_type);
                if 0 <= n <= u32::MAX {
                    Ok(UpdateOutcome::Decided(Some(SendBroadcastOfSetOwnData {
                        command: SetOwnData {
                            enterprise_id: v.id,
                            data: crate::cluster::messages::UpdateRegister::EnterpriseLimit {
                                limit: n as u32,
                                usage: v.current_usage,
                            },
                        },
                        initial_leader: msg.initial_leader,
                        result: true,
                        do_broadcast: true,
                    })))
                } else {
                    Err(RepositoryFault::OutOfRange)
                }
            },
            Update::CardLimitUpdate { limit, card_id, update_type, .. } => {
                if !v.cards.contains_key(card_id) {
                    Err(RepositoryFault::CardNotFound)
                } else if v.cards[card_id].limit matches Some(l) && !(0 <= changed_limit(l, limit, update_type) <= u32::MAX) {
                    Err(RepositoryFault::OutOfRange)
                } else {
                    Ok(UpdateOutcome::Decided(card_limit_outcome(
                        v,
                        CardLimitUpdate { initial_leader: msg.initial_leader, limit, card_id, update_type },
                    )))
                }
            },
            Update::Payment { card_id, cost, .. } => {
                if !v.cards.contains_key(card_id) {
                    Err(RepositoryFault::CardNotFound)
                } else if v.current_usage + cost > u32::MAX || v.cards[card_id].current_usage + cost > u32::MAX {
                    Err(RepositoryFault::OutOfRange)
                } else {
                    Ok(UpdateOutcome::Decided(Some(payment_outcome(v, msg.initial_leader, card_id, cost))))
                }
            },
        }
    }
}

impl View for RepositoryManager {
    type V = Map<u32, RepositoryView>;

    closed spec fn view(&self) -> Map<u32, RepositoryView> {
        self.enterprises@.map_values(|r: Repository| r@)
    }
}

impl RepositoryManager {
    /// Each repository is well formed and registered under its own id.
    pub closed spec fn wf(&self) -> bool {
        forall|k: u32|
            #[trigger] self.enterprises@.contains_key(k) ==> self.enterprises@[k].wf() && self.enterprises@[k]@.id == k
    }

    /// No enterprise yet.
    pub fn new() -> (r: Self)
        ensures
            r.wf(),
            r@ == Map::<u32, RepositoryView>::empty(),
    {
        let r = RepositoryManager { enterprises: HashMap::new() };
        assert(r@ =~= Map::<u32, RepositoryView>::empty());
        r
    }

    /// Creates (or creates anew) an enterprise's repository.
    pub fn handle_create(&mut self, msg: &Create)
        requires
            old(self).wf(),
        ensures
            final(self).wf(),
            final(self)@ == old(self)@.insert(
                msg.enterprise_id,
                RepositoryView {
                    id: msg.enterprise_id,
                    current_usage: 0,
                    limit: Some(msg.enterprise_limit),
                    cards: with_cards(Map::empty(), msg.card_limits@),
                },
            ),
    {
        let mut repo = Repository::new(msg.enterprise_id);
        repo.handle_create(msg);
        let ghost before = self.enterprises@;
        self.enterprises.insert(msg.enterprise_id, repo);
        assert(self@ =~= before.map_values(|r: Repository| r@).insert(msg.enterprise_id, repo@));
    }

    /// Writes registers into an enterprise's data, when this node has it.
    pub fn handle_set_own_data(&mut self, msg: SetOwnData)
        requires
            old(self).wf(),
        ensures
            final(self).wf(),
            old(self)@.contains_key(msg.enterprise_id) ==> final(self)@ == old(self)@.insert(
                msg.enterprise_id,
                apply_set_own_data(old(self)@[msg.enterprise_id], msg.data),
            ),
            !old(self)@.contains_key(msg.enterprise_id) ==> final(self)@ == old(self)@,
    {
        let ghost before = self.enterprises@;
        match self.enterprises.remove(&msg.enterprise_id) {
            Some(mut repo) => {
                repo.handle_set_own_data(msg.data);
                self.enterprises.insert(msg.enterprise_id, repo);
                assert(self.enterprises@ =~= before.insert(msg.enterprise_id, repo));
                assert(self@ =~= before.map_values(|r: Repository| r@).insert(msg.enterprise_id, repo@));
            },
            None => {
                assert(self.enterprises@ =~= before);
            },
        }
    }

    /// Answers a client's query, or forwards it when this node lacks the
    /// data.
    pub fn handle_select(&self, msg: SelectWithId) -> (r: SelectOutcome)
        requires
            self.wf(),
        ensures
            match msg.select {
                Select::CardView { enterprise_id, card_id } => if self@.contains_key(enterprise_id)
                    && card_view_data(self@[enterprise_id], card_id) is Some {
                    r == SelectOutcome::CardView(CardViewResponse {
                        transaction_id: msg.transaction_id,
                        enterprise_id,
                        card_id,
                        response: card_view_data(self@[enterprise_id], card_id),
                    })
                } else {
                    r == SelectOutcome::Forward(select_to_internode(msg.select, msg.transaction_id))
                },
                Select::EnterpriseView { enterprise_id } => if self@.contains_key(enterprise_id) {
                    r == SelectOutcome::EnterpriseView(EnterpriseViewResponse {
                        transaction_id: msg.transaction_id,
                        enterprise_id,
                        data: Some(enterprise_view_data(self@[enterprise_id])),
                    })
                } else {
                    r == SelectOutcome::Forward(select_to_internode(msg.select, msg.transaction_id))
                },
            },
    {
        let enterprise_id = msg.select.get_enterprise_id();
        match self.enterprises.get(&enterprise_id) {
            Some(repo) => {
                assert(self@[enterprise_id] == repo@);
                match msg.select {
                    Select::CardView { card_id, .. } => {
                        let response = repo.card_view(CardView { transaction_id: msg.transaction_id, card_id });
                        if response.response.is_none() {
                            SelectOutcome::Forward(response.to_is())
                        } else {
                            SelectOutcome::CardView(response)
                        }
                    },
                    Select::EnterpriseView { .. } => {
                        SelectOutcome::EnterpriseView(repo.enterprise_view(EnterpriseView { transaction_id: msg.transaction_id }))
                    },
                }
            },
            None => SelectOutcome::Forward(msg.to_is()),
        }
    }

    /// Answers a query forwarded by another node; `None` when this node does
    /// not have the enterprise.
    pub fn handle_internode_select(&self, msg: InternodeSelectWithId) -> (r: Option<InternodeResponse>)
        requires
            self.wf(),
        ensures
            self@.contains_key(msg.select.spec_enterprise_id()) ==> r == Some(
                internode_answer(self@[msg.select.spec_enterprise_id()], msg.select),
            ),
            !self@.contains_key(msg.select.spec_enterprise_id()) ==> r is None,
    {
        let enterprise_id = msg.select.get_enterprise_id();
        match self.enterprises.get(&enterprise_id) {
            Some(repo) => {
                assert(self@[enterprise_id] == repo@);
                Some(repo.internode_select(msg.select))
            },
            None => None,
        }
    }

    /// Decides an update when this node has the enterprise, or asks the
    /// other nodes for the data it needs. The repositories do not change: an
    /// update takes effect when its write comes back.
    pub fn handle_update(&self, msg: UpdateWithId) -> (r: Result<UpdateOutcome, RepositoryFault>)
        requires
            self.wf(),
        ensures
            r == update_decision(self@, msg),
    {
        let enterprise_id = msg.update.get_enterprise_id();
        let repo = match self.enterprises.get(&enterprise_id) {
            Some(repo) => repo,
            None => return Ok(UpdateOutcome::Forward(msg.to_is())),
        };
        assert(self@[enterprise_id] == repo@);
        proof {
            repo.lemma_view_wf();
        }
        match msg.update {
            Update::EnterpriseLimitUpdate { limit, update_type, .. } => {
                let current = repo.limit_value();
                let fits = match update_type {
                    UpdateType::Increment => current <= u32::MAX - limit,
                    UpdateType::Decrement => current >= limit,
                    UpdateType::SetValue => true,
                };
                if !fits {
                    return Err(RepositoryFault::OutOfRange);
                }
                Ok(UpdateOutcome::Decided(Some(repo.enterprise_limit_update(EnterpriseLimitUpdate {
                    initial_leader: msg.initial_leader,
                    limit,
                    update_type,
                }))))
            },
            Update::CardLimitUpdate { limit, card_id, update_type, .. } => {
                let card = match repo.card_state(card_id) {
                    Some(c) => c,
                    None => return Err(RepositoryFault::CardNotFound),
                };
                if let Some(l) = card.limit {
                    let fits = match update_type {
                        UpdateType::Increment => l <= u32::MAX - limit,
                        UpdateType::Decrement => l >= limit,
                        UpdateType::SetValue => true,
                    };
                    if !fits {
                        return Err(RepositoryFault::OutOfRange);
                    }
                }
                Ok(UpdateOutcome::Decided(repo.card_limit_update(CardLimitUpdate {
                    initial_leader: msg.initial_leader,
                    limit,
                    card_id,
                    update_type,
                })))
            },
            Update::Payment { payment_id, card_id, cost, .. } => {
                let card = match repo.card_state(card_id) {
                    Some(c) => c,
                    None => return Err(RepositoryFault::CardNotFound),
                };
                if repo.usage() > u32::MAX - cost || card.current_usage > u32::MAX - cost {
                    return Err(RepositoryFault::OutOfRange);
                }
                Ok(UpdateOutcome::Decided(Some(repo.update_payment(&UpdatePayment {
                    initial_leader: msg.initial_leader,
                    id: payment_id,
                    card_id,
                    cost,
                }))))
            },
        }
    }
}

} // verus!

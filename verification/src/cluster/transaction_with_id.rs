//! Queries and updates tagged with the id of the transaction they belong to.
use vstd::prelude::*;
use crate::cluster::messages::{InternodeSelect, Select, Update};

verus! {

/// A query of a client's transaction.
#[derive(Debug, Clone)]
pub struct SelectWithId {
    pub transaction_id: String,
    pub select: Select,
}

/// The query to forward to the other nodes for `select`.
pub open spec fn select_to_internode(select: Select, transaction_id: String) -> InternodeSelect {
    match select {
        Select::CardView { enterprise_id, card_id } => InternodeSelect::CardViewFromInternode {
            enterprise_id,
            card_id,
            transaction_id,
        },
        Select::EnterpriseView { enterprise_id } => InternodeSelect::EnterpriseViewFromInternode {
            enterprise_id,
            transaction_id,
        },
    }
}

impl SelectWithId {
    /// The same query, to be asked of the other nodes.
    pub fn to_is(self) -> (r: InternodeSelect)
        ensures
            r == select_to_internode(self.select, self.transaction_id),
    {
        match self.select {
            Select::CardView { enterprise_id, card_id } => InternodeSelect::CardViewFromInternode {
                enterprise_id,
                card_id,
                transaction_id: self.transaction_id,
            },
            Select::EnterpriseView { enterprise_id } => InternodeSelect::EnterpriseViewFromInternode {
                enterprise_id,
                transaction_id: self.transaction_id,
            },
        }
    }
}

/// A query that another node forwarded.
#[derive(Debug, Clone)]
pub struct InternodeSelectWithId {
    pub transaction_id: String,
    pub select: InternodeSelect,
    pub initial_leader: Option<u32>,
}

/// An update of a client's transaction.
#[derive(Debug, Clone)]
pub struct UpdateWithId {
    pub initial_leader: Option<u32>,
    pub transaction_id: String,
    pub update: Update,
}

/// The query that fetches from the other nodes the data `update` needs.
pub open spec fn update_to_internode(update: Update, transaction_id: String, initial_leader: Option<u32>) -> InternodeSelect {
    match update {
        Update::EnterpriseLimitUpdate { enterprise_id, .. } => {
            InternodeSelect::EnterpriseViewForUpdateFromInternode { enterprise_id, transaction_id, initial_leader }
        },
        Update::CardLimitUpdate { enterprise_id, card_id, .. } => {
            InternodeSelect::CardViewForUpdateFromInternode { enterprise_id, card_id, transaction_id, initial_leader }
        },
        Update::Payment { enterprise_id, card_id, .. } => {
            InternodeSelect::PaymentView { enterprise_id, card_id, transaction_id, initial_leader }
        },
    }
}

impl UpdateWithId {
    /// The query that fetches from the other nodes the data the update needs.
    pub fn to_is(self) -> (r: InternodeSelect)
        ensures
            r == update_to_internode(self.update, self.transaction_id, self.initial_leader),
    {
        match self.update {
            Update::EnterpriseLimitUpdate { enterprise_id, .. } => {
                InternodeSelect::EnterpriseViewForUpdateFromInternode {
                    enterprise_id,
                    transaction_id: self.transaction_id,
                    initial_leader: self.initial_leader,
                }
            },
            Update::CardLimitUpdate { enterprise_id, card_id, .. } => {
                InternodeSelect::CardViewForUpdateFromInternode {
                    enterprise_id,
                    card_id,
                    transaction_id: self.transaction_id,
                    initial_leader: self.initial_leader,
                }
            },
            Update::Payment { enterprise_id, card_id, .. } => InternodeSelect::PaymentView {
                enterprise_id,
                card_id,
                transaction_id: self.transaction_id,
                initial_leader: self.initial_leader,
            },
        }
    }
}

} // verus!

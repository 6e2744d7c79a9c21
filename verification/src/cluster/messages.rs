//! The data that the cluster's components exchange: requests, responses and
//! the register updates that replicate an enterprise's state.
use vstd::prelude::*;

verus! {

/// How a limit is changed.
#[derive(Debug, Clone, Copy, PartialEq, Eq, Structural)]
pub enum UpdateType {
    Increment,
    Decrement,
    /// Replaces the limit.
    SetValue,
}

/// Whether a payment is checked against the limits.
#[derive(Debug, Clone, Copy, PartialEq, Eq, Structural)]
pub enum PaymentType {
    /// Recorded whatever the limits say.
    ForcePayment,
    /// Recorded only when it keeps usage within the limits.
    PaymentVerification,
}

/// The role of a connected peer.
#[derive(Debug, Clone, Copy, PartialEq, Eq, Structural)]
pub enum Role {
    Internode,
    Station,
    Proxy,
}

/// A change to an enterprise's data.
#[derive(Debug, Clone)]
pub enum Update {
    EnterpriseLimitUpdate { enterprise_id: u32, limit: u32, update_type: UpdateType },
    CardLimitUpdate { enterprise_id: u32, card_id: u32, limit: u32, update_type: UpdateType },
    Payment {
        payment_id: String,
        enterprise_id: u32,
        card_id: u32,
        cost: u32,
        transaction_type: PaymentType,
    },
}

impl Update {
    pub open spec fn spec_enterprise_id(&self) -> u32 {
        match self {
            Update::EnterpriseLimitUpdate { enterprise_id, .. } => *enterprise_id,
            Update::CardLimitUpdate { enterprise_id, .. } => *enterprise_id,
            Update::Payment { enterprise_id, .. } => *enterprise_id,
        }
    }

    /// A copy: the same change, with a payment id of the same text.
    pub fn duplicate(&self) -> (r: Update)
        ensures
            same_update(r, *self),
    {
        match self {
            Update::EnterpriseLimitUpdate { enterprise_id, limit, update_type } => Update::EnterpriseLimitUpdate {
                enterprise_id: *enterprise_id,
                limit: *limit,
                update_type: *update_type,
            },
            Update::CardLimitUpdate { enterprise_id, card_id, limit, update_type } => Update::CardLimitUpdate {
                enterprise_id: *enterprise_id,
                card_id: *card_id,
                limit: *limit,
                update_type: *update_type,
            },
            Update::Payment { payment_id, enterprise_id, card_id, cost, transaction_type } => Update::Payment {
                payment_id: payment_id.clone(),
                enterprise_id: *enterprise_id,
                card_id: *card_id,
                cost: *cost,
                transaction_type: *transaction_type,
            },
        }
    }

    /// The enterprise whose data changes.
    pub fn get_enterprise_id(&self) -> (r: u32)
        ensures
            r == self.spec_enterprise_id(),
    {
        match self {
            Update::EnterpriseLimitUpdate { enterprise_id, .. } => *enterprise_id,
            Update::CardLimitUpdate { enterprise_id, .. } => *enterprise_id,
            Update::Payment { enterprise_id, .. } => *enterprise_id,
        }
    }
}

/// Two updates make the same change: the same fields, and payment ids of
/// the same text.
pub open spec fn same_update(a: Update, b: Update) -> bool {
    match (a, b) {
        (
            Update::Payment { payment_id: p, enterprise_id: e, card_id: c, cost: x, transaction_type: t },
            Update::Payment { payment_id: q, enterprise_id: f, card_id: d, cost: y, transaction_type: u },
        ) => p@ == q@ && e == f && c == d && x == y && t == u,
        (Update::Payment { .. }, _) => false,
        (_, Update::Payment { .. }) => false,
        _ => a == b,
    }
}

/// A query on an enterprise's data.
#[derive(Debug, Clone, Copy, PartialEq, Eq, Structural)]
pub enum Select {
    CardView { enterprise_id: u32, card_id: u32 },
    EnterpriseView { enterprise_id: u32 },
}

impl Select {
    pub open spec fn spec_enterprise_id(&self) -> u32 {
        match self {
            Select::CardView { enterprise_id, .. } => *enterprise_id,
            Select::EnterpriseView { enterprise_id } => *enterprise_id,
        }
    }

    /// The enterprise that is queried.
    pub fn get_enterprise_id(&self) -> (r: u32)
        ensures
            r == self.spec_enterprise_id(),
    {
        match self {
            Select::CardView { enterprise_id, .. } => *enterprise_id,
            Select::EnterpriseView { enterprise_id } => *enterprise_id,
        }
    }
}

/// Usage and limits of a card and of its enterprise.
#[derive(Debug, Clone, Copy, PartialEq, Eq, Structural)]
pub struct CardViewResponseData {
    pub enterprise_usage: u32,
    pub enterprise_limit: Option<u32>,
    pub card_usage: u32,
    pub card_limit: Option<u32>,
}

/// Usage and limit of an enterprise.
#[derive(Debug, Clone, Copy, PartialEq, Eq, Structural)]
pub struct EnterpriseViewResponseData {
    pub usage: u32,
    pub limit: u32,
}

/// What a payment is checked against.
#[derive(Debug, Clone, Copy, PartialEq, Eq, Structural)]
pub struct PaymentViewResponseInfo {
    pub card_limit: Option<u32>,
    pub card_usage: u32,
    pub enterprise_limit: Option<u32>,
    pub enterprise_usage: u32,
}

/// The new value of some registers of an enterprise.
#[derive(Debug, Clone, Copy, PartialEq, Eq, Structural)]
pub enum UpdateRegister {
    EnterpriseLimit { limit: u32, usage: u32 },
    CardLimitOrUsage {
        card_id: u32,
        card_limit: u32,
        card_usage: u32,
        enterprise_limit: u32,
        enterprise_usage: u32,
    },
}

/// Registers to write into an enterprise's data.
#[derive(Debug, Clone, Copy, PartialEq, Eq, Structural)]
pub struct SetOwnData {
    pub enterprise_id: u32,
    pub data: UpdateRegister,
}

/// The outcome of an update: the registers to write, whether the update
/// succeeded, and whether the write goes to every node.
#[derive(Debug, Clone, Copy, PartialEq, Eq, Structural)]
pub struct SendBroadcastOfSetOwnData {
    pub command: SetOwnData,
    pub initial_leader: Option<u32>,
    pub result: bool,
    pub do_broadcast: bool,
}

/// The creation of an enterprise with its limit and its cards' limits.
#[derive(Debug, Clone)]
pub struct Create {
    pub enterprise_id: u32,
    pub enterprise_limit: u32,
    /// (card id, card limit)
    pub card_limits: Vec<(u32, u32)>,
}

impl Create {
    /// A copy with the same enterprise and limits.
    pub fn duplicate(&self) -> (r: Create)
        ensures
            r.enterprise_id == self.enterprise_id,
            r.enterprise_limit == self.enterprise_limit,
            r.card_limits@ == self.card_limits@,
    {
        let mut card_limits: Vec<(u32, u32)> = Vec::new();
        let mut i: usize = 0;
        while i < self.card_limits.len()
            invariant
                i <= self.card_limits.len(),
                card_limits@ == self.card_limits@.take(i as int),
            decreases self.card_limits.len() - i,
        {
            card_limits.push(self.card_limits[i]);
            i = i + 1;
            assert(card_limits@ =~= self.card_limits@.take(i as int));
        }
        assert(card_limits@ =~= self.card_limits@);
        Create { enterprise_id: self.enterprise_id, enterprise_limit: self.enterprise_limit, card_limits }
    }
}

/// A query forwarded to the other nodes.
#[derive(Debug, Clone)]
pub enum InternodeSelect {
    CardViewFromInternode { enterprise_id: u32, card_id: u32, transaction_id: String },
    CardViewForUpdateFromInternode {
        enterprise_id: u32,
        card_id: u32,
        transaction_id: String,
        initial_leader: Option<u32>,
    },
    EnterpriseViewForUpdateFromInternode {
        enterprise_id: u32,
        transaction_id: String,
        initial_leader: Option<u32>,
    },
    EnterpriseViewFromInternode { enterprise_id: u32, transaction_id: String },
    PaymentView {
        enterprise_id: u32,
        card_id: u32,
        transaction_id: String,
        initial_leader: Option<u32>,
    },
}

impl InternodeSelect {
    pub open spec fn spec_enterprise_id(&self) -> u32 {
        match self {
            InternodeSelect::CardViewFromInternode { enterprise_id, .. } => *enterprise_id,
            InternodeSelect::CardViewForUpdateFromInternode { enterprise_id, .. } => *enterprise_id,
            InternodeSelect::EnterpriseViewForUpdateFromInternode { enterprise_id, .. } => *enterprise_id,
            InternodeSelect::EnterpriseViewFromInternode { enterprise_id, .. } => *enterprise_id,
            InternodeSelect::PaymentView { enterprise_id, .. } => *enterprise_id,
        }
    }

    pub open spec fn spec_transaction_id(&self) -> Seq<char> {
        match self {
            InternodeSelect::CardViewFromInternode { transaction_id, .. } => transaction_id@,
            InternodeSelect::CardViewForUpdateFromInternode { transaction_id, .. } => transaction_id@,
            InternodeSelect::EnterpriseViewForUpdateFromInternode { transaction_id, .. } => transaction_id@,
            InternodeSelect::EnterpriseViewFromInternode { transaction_id, .. } => transaction_id@,
            InternodeSelect::PaymentView { transaction_id, .. } => transaction_id@,
        }
    }

    pub open spec fn spec_initial_leader(&self) -> Option<u32> {
        match self {
            InternodeSelect::CardViewForUpdateFromInternode { initial_leader, .. } => *initial_leader,
            InternodeSelect::EnterpriseViewForUpdateFromInternode { initial_leader, .. } => *initial_leader,
            InternodeSelect::PaymentView { initial_leader, .. } => *initial_leader,
            _ => None,
        }
    }

    /// The same query under the transaction `id`.
    pub open spec fn with_transaction_id(self, id: String) -> InternodeSelect {
        match self {
            InternodeSelect::CardViewFromInternode { enterprise_id, card_id, .. } => InternodeSelect::CardViewFromInternode {
                enterprise_id,
                card_id,
                transaction_id: id,
            },
            InternodeSelect::CardViewForUpdateFromInternode { enterprise_id, card_id, initial_leader, .. } => InternodeSelect::CardViewForUpdateFromInternode {
                enterprise_id,
                card_id,
                transaction_id: id,
                initial_leader,
            },
            InternodeSelect::EnterpriseViewForUpdateFromInternode { enterprise_id, initial_leader, .. } => InternodeSelect::EnterpriseViewForUpdateFromInternode {
                enterprise_id,
                transaction_id: id,
                initial_leader,
            },
            InternodeSelect::EnterpriseViewFromInternode { enterprise_id, .. } => InternodeSelect::EnterpriseViewFromInternode {
                enterprise_id,
                transaction_id: id,
            },
            InternodeSelect::PaymentView { enterprise_id, card_id, initial_leader, .. } => InternodeSelect::PaymentView {
                enterprise_id,
                card_id,
                transaction_id: id,
                initial_leader,
            },
        }
    }

    /// The transaction that asks.
    pub fn get_transaction_id(&self) -> (r: &String)
        ensures
            r@ == self.spec_transaction_id(),
    {
        match self {
            InternodeSelect::CardViewFromInternode { transaction_id, .. } => transaction_id,
            InternodeSelect::CardViewForUpdateFromInternode { transaction_id, .. } => transaction_id,
            InternodeSelect::EnterpriseViewForUpdateFromInternode { transaction_id, .. } => transaction_id,
            InternodeSelect::EnterpriseViewFromInternode { transaction_id, .. } => transaction_id,
            InternodeSelect::PaymentView { transaction_id, .. } => transaction_id,
        }
    }

    /// The leader that the asking node had when the transaction began; `None`
    /// for a plain query.
    pub fn get_initial_leader(&self) -> (r: Option<u32>)
        ensures
            r == self.spec_initial_leader(),
    {
        match self {
            InternodeSelect::CardViewForUpdateFromInternode { initial_leader, .. } => *initial_leader,
            InternodeSelect::EnterpriseViewForUpdateFromInternode { initial_leader, .. } => *initial_leader,
            InternodeSelect::PaymentView { initial_leader, .. } => *initial_leader,
            _ => None,
        }
    }

    /// The same query under another transaction.
    pub fn update_transaction_id(&mut self, id: String)
        ensures
            *final(self) == old(self).with_transaction_id(id),
    {
        match self {
            InternodeSelect::CardViewFromInternode { transaction_id, .. } => *transaction_id = id,
            InternodeSelect::CardViewForUpdateFromInternode { transaction_id, .. } => *transaction_id = id,
            InternodeSelect::EnterpriseViewForUpdateFromInternode { transaction_id, .. } => *transaction_id = id,
            InternodeSelect::EnterpriseViewFromInternode { transaction_id, .. } => *transaction_id = id,
            InternodeSelect::PaymentView { transaction_id, .. } => *transaction_id = id,
        }
    }

    /// The enterprise that is queried.
    pub fn get_enterprise_id(&self) -> (r: u32)
        ensures
            r == self.spec_enterprise_id(),
    {
        match self {
            InternodeSelect::CardViewFromInternode { enterprise_id, .. } => *enterprise_id,
            InternodeSelect::CardViewForUpdateFromInternode { enterprise_id, .. } => *enterprise_id,
            InternodeSelect::EnterpriseViewForUpdateFromInternode { enterprise_id, .. } => *enterprise_id,
            InternodeSelect::EnterpriseViewFromInternode { enterprise_id, .. } => *enterprise_id,
            InternodeSelect::PaymentView { enterprise_id, .. } => *enterprise_id,
        }
    }
}

/// The answer of a node to a forwarded query.
#[derive(Debug, Clone)]
#[allow(inconsistent_fields)]
pub enum InternodeResponse {
    CardViewResponse {
        response: Option<CardViewResponseData>,
        enterprise_id: u32,
        card_id: u32,
        transaction_id: String,
    },
    CardViewForUpdateResponse {
        response: Option<CardViewResponseData>,
        transaction_id: String,
        initial_leader: Option<u32>,
    },
    EnterpriseViewForUpdateResponse {
        response: Option<EnterpriseViewResponseData>,
        transaction_id: String,
        initial_leader: Option<u32>,
    },
    EnterpriseViewResponse { response: Option<EnterpriseViewResponseData>, transaction_id: String },
    PaymentViewResponse {
        response: Option<PaymentViewResponseInfo>,
        transaction_id: String,
        enterprise_id: u32,
        card_id: u32,
        initial_leader: Option<u32>,
    },
}

impl InternodeResponse {
    pub open spec fn spec_transaction_id(&self) -> Seq<char> {
        match self {
            InternodeResponse::CardViewResponse { transaction_id, .. } => transaction_id@,
            InternodeResponse::CardViewForUpdateResponse { transaction_id, .. } => transaction_id@,
            InternodeResponse::EnterpriseViewForUpdateResponse { transaction_id, .. } => transaction_id@,
            InternodeResponse::EnterpriseViewResponse { transaction_id, .. } => transaction_id@,
            InternodeResponse::PaymentViewResponse { transaction_id, .. } => transaction_id@,
        }
    }

    /// Whether the answer carries data: a node without the enterprise
    /// answers with none.
    pub open spec fn spec_has_data(&self) -> bool {
        match self {
            InternodeResponse::CardViewResponse { response, .. } => response is Some,
            InternodeResponse::CardViewForUpdateResponse { response, .. } => response is Some,
            InternodeResponse::EnterpriseViewForUpdateResponse { response, .. } => response is Some,
            InternodeResponse::EnterpriseViewResponse { response, .. } => response is Some,
            InternodeResponse::PaymentViewResponse { response, .. } => response is Some,
        }
    }

    /// The answer for the client of a plain query; `None` for the answers
    /// that serve an update.
    pub open spec fn spec_to_tr(self) -> Option<TransactionResponse> {
        match self {
            InternodeResponse::CardViewResponse { response, enterprise_id, card_id, transaction_id } => Some(
                TransactionResponse::CardViewResponse { card_id, enterprise_id, transaction_id, response },
            ),
            InternodeResponse::EnterpriseViewResponse { response, transaction_id } => Some(
                TransactionResponse::EnterpriseViewResponse { transaction_id, response },
            ),
            _ => None,
        }
    }

    /// The transaction that the answer is for.
    pub fn get_transaction_id(&self) -> (r: &String)
        ensures
            r@ == self.spec_transaction_id(),
    {
        match self {
            InternodeResponse::CardViewResponse { transaction_id, .. } => transaction_id,
            InternodeResponse::CardViewForUpdateResponse { transaction_id, .. } => transaction_id,
            InternodeResponse::EnterpriseViewForUpdateResponse { transaction_id, .. } => transaction_id,
            InternodeResponse::EnterpriseViewResponse { transaction_id, .. } => transaction_id,
            InternodeResponse::PaymentViewResponse { transaction_id, .. } => transaction_id,
        }
    }

    /// Whether the answer carries data.
    pub fn check_if_data_is_valid(&self) -> (r: bool)
        ensures
            r == self.spec_has_data(),
    {
        match self {
            InternodeResponse::CardViewResponse { response, .. } => response.is_some(),
            InternodeResponse::CardViewForUpdateResponse { response, .. } => response.is_some(),
            InternodeResponse::EnterpriseViewForUpdateResponse { response, .. } => response.is_some(),
            InternodeResponse::EnterpriseViewResponse { response, .. } => response.is_some(),
            InternodeResponse::PaymentViewResponse { response, .. } => response.is_some(),
        }
    }

    /// The answer for the client of a plain query.
    pub fn to_tr(self) -> (r: Option<TransactionResponse>)
        ensures
            r == self.spec_to_tr(),
    {
        match self {
            InternodeResponse::CardViewResponse { response, enterprise_id, card_id, transaction_id } => Some(
                TransactionResponse::CardViewResponse { card_id, enterprise_id, transaction_id, response },
            ),
            InternodeResponse::EnterpriseViewResponse { response, transaction_id } => Some(
                TransactionResponse::EnterpriseViewResponse { transaction_id, response },
            ),
            _ => None,
        }
    }
}

/// The answer to a client.
#[derive(Debug, Clone)]
#[allow(inconsistent_fields)]
pub enum TransactionResponse {
    CardViewResponse {
        card_id: u32,
        enterprise_id: u32,
        transaction_id: String,
        response: Option<CardViewResponseData>,
    },
    EnterpriseViewResponse { transaction_id: String, response: Option<EnterpriseViewResponseData> },
    TransactionResultResponse { transaction_id: String, result: bool },
}

/// A query of a repository about one of its cards.
#[derive(Debug, Clone)]
pub struct CardView {
    pub transaction_id: String,
    pub card_id: u32,
}

/// A query of a repository about its enterprise.
#[derive(Debug, Clone)]
pub struct EnterpriseView {
    pub transaction_id: String,
}

/// A repository's answer to a card query.
#[derive(Debug, Clone)]
pub struct CardViewResponse {
    pub transaction_id: String,
    pub enterprise_id: u32,
    pub card_id: u32,
    pub response: Option<CardViewResponseData>,
}

impl CardViewResponse {
    /// The answer for the client.
    pub fn to_tr(self) -> (r: TransactionResponse)
        ensures
            r == (TransactionResponse::CardViewResponse {
                card_id: self.card_id,
                enterprise_id: self.enterprise_id,
                transaction_id: self.transaction_id,
                response: self.response,
            }),
    {
        TransactionResponse::CardViewResponse {
            card_id: self.card_id,
            enterprise_id: self.enterprise_id,
            transaction_id: self.transaction_id,
            response: self.response,
        }
    }

    /// The same query, to be asked of the other nodes.
    pub fn to_is(self) -> (r: InternodeSelect)
        ensures
            r == (InternodeSelect::CardViewFromInternode {
                enterprise_id: self.enterprise_id,
                card_id: self.card_id,
                transaction_id: self.transaction_id,
            }),
    {
        InternodeSelect::CardViewFromInternode {
            enterprise_id: self.enterprise_id,
            card_id: self.card_id,
            transaction_id: self.transaction_id,
        }
    }
}

/// A repository's answer to an enterprise query.
#[derive(Debug, Clone)]
pub struct EnterpriseViewResponse {
    pub transaction_id: String,
    pub enterprise_id: u32,
    pub data: Option<EnterpriseViewResponseData>,
}

impl EnterpriseViewResponse {
    /// The answer for the client.
    pub fn to_tr(self) -> (r: TransactionResponse)
        ensures
            r == (TransactionResponse::EnterpriseViewResponse {
                transaction_id: self.transaction_id,
                response: self.data,
            }),
    {
        TransactionResponse::EnterpriseViewResponse {
            transaction_id: self.transaction_id,
            response: self.data,
        }
    }
}

/// A change of an enterprise's limit, for its repository.
#[derive(Debug, Clone, Copy, PartialEq, Eq, Structural)]
pub struct EnterpriseLimitUpdate {
    pub initial_leader: Option<u32>,
    pub limit: u32,
    pub update_type: UpdateType,
}

/// A change of a card's limit, for its enterprise's repository.
#[derive(Debug, Clone, Copy, PartialEq, Eq, Structural)]
pub struct CardLimitUpdate {
    pub initial_leader: Option<u32>,
    pub limit: u32,
    pub card_id: u32,
    pub update_type: UpdateType,
}

/// A payment, for its enterprise's repository.
#[derive(Debug, Clone)]
pub struct UpdatePayment {
    pub initial_leader: Option<u32>,
    pub id: String,
    pub card_id: u32,
    pub cost: u32,
}

/// The messages an enterprise sends to the cluster through its proxy.
#[derive(Debug, Clone)]
pub enum ProtocolMessage {
    /// Introduces the sender and its role.
    StartUp { from: u32, role: Role },
    /// Creates the enterprise with its balance and its cards' limits.
    EnterpriseCreate { enterprise_id: u32, enterprise_balance: u32, card_limits: Vec<(u32, u32)> },
    Update(Update),
    Select(Select),
    /// The answer to a client's transaction.
    TransactionResponse(TransactionResponse),
    /// A node's greeting, with what it says of itself.
    FirstMsg { from: u32, data: String },
    /// A node asks the others for data.
    RequestData(RequestData),
    /// A node answers a request for data.
    InternodeResponse(InternodeResponse),
    /// A node passes on the creation of an enterprise.
    InternodeCreate(Create),
    /// A node asks the leader for the lock of an enterprise.
    AcquireLock { transaction_id: String, enterprise_id: u32, from: u32 },
    /// A transaction gives back the lock of an enterprise.
    ReleaseLock { transaction_id: String, enterprise_id: u32 },
    /// The leader gave the lock of an enterprise to a transaction.
    LockGranted { transaction_id: String, enterprise_id: u32 },
    /// A node passes on a write of an enterprise's registers.
    InternodeSetOwnData(SetOwnData),
}

/// A node asks the others for data that its own repository lacks.
#[derive(Debug, Clone)]
pub struct RequestData {
    pub from: u32,
    pub original_id: String,
    pub select: InternodeSelect,
    pub initial_leader: Option<u32>,
}

} // verus!

//! One connection of a node: what each message read from it asks of the
//! node, and the message written for each thing the node sends over it.
use vstd::prelude::*;
use crate::cluster::lock_manager::Pending;
use crate::cluster::locks::{LockGranted, ReleaseLock};
use crate::cluster::messages::{Create, ProtocolMessage, Role, SetOwnData};
use crate::cluster::transaction_manager::{ToPeer, Transaction, TransactionResponseFromInternode, TransactionType};
use crate::text::{decimal, push_decimal, push_str};

verus! {

/// Asks a connection to close.
#[derive(Debug, Clone, Copy, PartialEq, Eq, Structural)]
pub struct ShutdownServer;

/// The name of a role, as `Debug` writes it.
pub open spec fn role_name(role: Role) -> Seq<char> {
    match role {
        Role::Internode => "Internode"@,
        Role::Station => "Station"@,
        Role::Proxy => "Proxy"@,
    }
}

/// The greeting a node sends back on a connection that introduced itself.
pub open spec fn greeting(id: u32, role: Role, peer_id: u32) -> Seq<char> {
    "Hello from Server Peer "@ + decimal(id as nat) + ", StartUp msg from "@ + role_name(role) + ": "@ + decimal(
        peer_id as nat,
    ) + " received "@
}

/// What a message read from a connection asks of the node.
pub enum PeerStep<O> {
    /// Register the connection under the peer's id and role, then write
    /// `reply` to it.
    Register { id: u32, role: Role, reply: ProtocolMessage },
    /// Nothing: a peer's greeting.
    Nothing,
    /// A transaction for the transaction manager.
    Transaction(Transaction<O>),
    /// Data that another node sent for a transaction.
    FromInternode(TransactionResponseFromInternode),
    /// A creation that another node passed on.
    InternodeCreate(Create),
    /// A request for a lock, to queue at the leader.
    Pending(Pending<O>),
    ReleaseLock(ReleaseLock),
    LockGranted(LockGranted),
    /// A write that another node passed on.
    SetOwnData(SetOwnData),
    /// A message that a connection does not expect.
    Unexpected,
}

/// What a message read from a connection asks, for the messages that are
/// passed on as they are: `me` is the connection.
pub open spec fn read_step<O>(msg: ProtocolMessage, me: O) -> PeerStep<O> {
    match msg {
        ProtocolMessage::FirstMsg { .. } => PeerStep::Nothing,
        ProtocolMessage::Update(u) => PeerStep::Transaction(
            Transaction { owner: me, id: None, transaction: TransactionType::Update(u), initial_leader: None },
        ),
        ProtocolMessage::Select(q) => PeerStep::Transaction(
            Transaction { owner: me, id: None, transaction: TransactionType::Select(q), initial_leader: None },
        ),
        ProtocolMessage::EnterpriseCreate { enterprise_id, enterprise_balance, card_limits } => PeerStep::Transaction(
            Transaction {
                owner: me,
                id: None,
                transaction: TransactionType::Create(
                    Create { enterprise_id, enterprise_limit: enterprise_balance, card_limits },
                ),
                initial_leader: None,
            },
        ),
        ProtocolMessage::RequestData(req) => PeerStep::Transaction(
            Transaction {
                owner: me,
                id: None,
                initial_leader: req.initial_leader,
                transaction: TransactionType::RequestData(req),
            },
        ),
        ProtocolMessage::InternodeCreate(c) => PeerStep::InternodeCreate(c),
        ProtocolMessage::AcquireLock { transaction_id, enterprise_id, from } => PeerStep::Pending(
            Pending { owner: Some(me), owner_id: from, transaction_id, enterprise_id, got_lock: false },
        ),
        ProtocolMessage::ReleaseLock { transaction_id, enterprise_id } => PeerStep::ReleaseLock(
            ReleaseLock { transaction_id, enterprise_id },
        ),
        ProtocolMessage::LockGranted { transaction_id, enterprise_id } => PeerStep::LockGranted(
            LockGranted { transaction_id, enterprise_id },
        ),
        ProtocolMessage::InternodeSetOwnData(d) => PeerStep::SetOwnData(d),
        _ => PeerStep::Unexpected,
    }
}

/// The message written for what a node sends to a peer.
pub open spec fn outgoing_message(msg: ToPeer) -> ProtocolMessage {
    match msg {
        ToPeer::Create(c) => ProtocolMessage::InternodeCreate(c),
        ToPeer::AcquireLock(m) => ProtocolMessage::AcquireLock {
            from: m.from,
            transaction_id: m.transaction_id,
            enterprise_id: m.enterprise_id,
        },
        ToPeer::ReleaseLock(m) => ProtocolMessage::ReleaseLock {
            transaction_id: m.transaction_id,
            enterprise_id: m.enterprise_id,
        },
        ToPeer::LockGranted(m) => ProtocolMessage::LockGranted {
            transaction_id: m.transaction_id,
            enterprise_id: m.enterprise_id,
        },
        ToPeer::Broadcast(b) => ProtocolMessage::InternodeSetOwnData(b.command),
        ToPeer::RequestData(d) => ProtocolMessage::RequestData(d),
    }
}

/// What one node sends another is read there as the same request: a lock
/// request is queued for the sender, a release and a grant arrive as they
/// left, a creation and a decided write are applied, and a request for data
/// becomes a transaction of the reading connection.
pub proof fn law_sent_is_read_back<O>(msg: ToPeer, me: O)
    ensures
        match msg {
            ToPeer::AcquireLock(a) => read_step(outgoing_message(msg), me) == PeerStep::Pending(
                Pending {
                    owner: Some(me),
                    owner_id: a.from,
                    transaction_id: a.transaction_id,
                    enterprise_id: a.enterprise_id,
                    got_lock: false,
                },
            ),
            ToPeer::ReleaseLock(m) => read_step(outgoing_message(msg), me) == PeerStep::<O>::ReleaseLock(m),
            ToPeer::LockGranted(m) => read_step(outgoing_message(msg), me) == PeerStep::<O>::LockGranted(m),
            ToPeer::Create(c) => read_step(outgoing_message(msg), me) == PeerStep::<O>::InternodeCreate(c),
            ToPeer::Broadcast(b) => read_step(outgoing_message(msg), me) == PeerStep::<O>::SetOwnData(b.command),
            ToPeer::RequestData(d) => read_step(outgoing_message(msg), me) == PeerStep::Transaction(
                Transaction {
                    owner: me,
                    id: None,
                    initial_leader: d.initial_leader,
                    transaction: TransactionType::RequestData(d),
                },
            ),
        },
{
}

/// A connection of the node `id`, and the role its peer gave.
pub struct ServerPeer {
    id: u32,
    role: Option<Role>,
}

impl ServerPeer {
    /// A connection whose peer has not introduced itself.
    pub fn new(id: u32) -> (r: Self)
        ensures
            r.id() == id,
            r.role() is None,
    {
        ServerPeer { id, role: None }
    }

    pub closed spec fn id(&self) -> u32 {
        self.id
    }

    pub closed spec fn role(&self) -> Option<Role> {
        self.role
    }

    /// The role that the peer gave.
    pub fn get_role(&self) -> (r: Option<Role>)
        ensures
            r == self.role(),
    {
        self.role
    }

    fn role_text(s: &mut String, role: Role)
        ensures
            final(s)@ == old(s)@ + role_name(role),
    {
        match role {
            Role::Internode => push_str(s, "Internode"),
            Role::Station => push_str(s, "Station"),
            Role::Proxy => push_str(s, "Proxy"),
        }
    }

    /// What a message read from the connection asks; `me` is this
    /// connection, the owner of what its peer asks for.
    pub fn handle_message<O>(&mut self, msg: ProtocolMessage, me: O) -> (r: PeerStep<O>)
        ensures
            final(self).id() == old(self).id(),
            msg matches ProtocolMessage::StartUp { role, .. } ==> final(self).role() == Some(role),
            !(msg is StartUp) ==> final(self).role() == old(self).role(),
            msg matches ProtocolMessage::StartUp { from, role } ==> (r matches PeerStep::Register {
                id,
                role: rl,
                reply: ProtocolMessage::FirstMsg { from: f, data },
            } && id == from && rl == role && f == old(self).id() && data@ == greeting(old(self).id(), role, from)),
            msg matches ProtocolMessage::InternodeResponse(resp) ==> (r matches PeerStep::FromInternode(f)
                && f.response == resp && f.original_id@ == resp.spec_transaction_id()),
            !(msg is StartUp) && !(msg is InternodeResponse) ==> r == read_step(msg, me),
    {
        match msg {
            ProtocolMessage::StartUp { from, role } => {
                self.role = Some(role);
                let mut data = String::new();
                push_str(&mut data, "Hello from Server Peer ");
                push_decimal(&mut data, self.id as u64);
                push_str(&mut data, ", StartUp msg from ");
                Self::role_text(&mut data, role);
                push_str(&mut data, ": ");
                push_decimal(&mut data, from as u64);
                push_str(&mut data, " received ");
                PeerStep::Register { id: from, role, reply: ProtocolMessage::FirstMsg { from: self.id, data } }
            },
            ProtocolMessage::FirstMsg { .. } => PeerStep::Nothing,
            ProtocolMessage::Update(update) => PeerStep::Transaction(
                Transaction { owner: me, id: None, transaction: TransactionType::Update(update), initial_leader: None },
            ),
            ProtocolMessage::Select(select) => PeerStep::Transaction(
                Transaction { owner: me, id: None, transaction: TransactionType::Select(select), initial_leader: None },
            ),
            ProtocolMessage::EnterpriseCreate { enterprise_id, enterprise_balance, card_limits } => PeerStep::Transaction(
                Transaction {
                    owner: me,
                    id: None,
                    transaction: TransactionType::Create(
                        Create { enterprise_id, enterprise_limit: enterprise_balance, card_limits },
                    ),
                    initial_leader: None,
                },
            ),
            ProtocolMessage::RequestData(request) => {
                let initial_leader = request.initial_leader;
                PeerStep::Transaction(
                    Transaction {
                        owner: me,
                        id: None,
                        transaction: TransactionType::RequestData(request),
                        initial_leader,
                    },
                )
            },
            ProtocolMessage::InternodeResponse(response) => {
                let original_id = response.get_transaction_id().clone();
                PeerStep::FromInternode(TransactionResponseFromInternode { original_id, response })
            },
            ProtocolMessage::InternodeCreate(create) => PeerStep::InternodeCreate(create),
            ProtocolMessage::AcquireLock { transaction_id, enterprise_id, from } => PeerStep::Pending(
                Pending { owner: Some(me), owner_id: from, transaction_id, enterprise_id, got_lock: false },
            ),
            ProtocolMessage::ReleaseLock { transaction_id, enterprise_id } => PeerStep::ReleaseLock(
                ReleaseLock { transaction_id, enterprise_id },
            ),
            ProtocolMessage::LockGranted { transaction_id, enterprise_id } => PeerStep::LockGranted(
                LockGranted { transaction_id, enterprise_id },
            ),
            ProtocolMessage::InternodeSetOwnData(data) => PeerStep::SetOwnData(data),
            _ => PeerStep::Unexpected,
        }
    }

    /// The message written to a connection for what the node sends to that
    /// peer; a decided update is passed on as its write.
    pub fn outgoing(msg: ToPeer) -> (r: ProtocolMessage)
        ensures
            r == outgoing_message(msg),
    {
        match msg {
            ToPeer::Create(c) => ProtocolMessage::InternodeCreate(c),
            ToPeer::AcquireLock(m) => ProtocolMessage::AcquireLock {
                from: m.from,
                transaction_id: m.transaction_id,
                enterprise_id: m.enterprise_id,
            },
            ToPeer::ReleaseLock(m) => ProtocolMessage::ReleaseLock {
                transaction_id: m.transaction_id,
                enterprise_id: m.enterprise_id,
            },
            ToPeer::LockGranted(m) => ProtocolMessage::LockGranted {
                transaction_id: m.transaction_id,
                enterprise_id: m.enterprise_id,
            },
            ToPeer::Broadcast(b) => ProtocolMessage::InternodeSetOwnData(b.command),
            ToPeer::RequestData(d) => ProtocolMessage::RequestData(d),
        }
    }
}

} // verus!

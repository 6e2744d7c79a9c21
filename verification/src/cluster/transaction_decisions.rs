//! The decisions a node takes on an update once the data it needed arrived
//! from another node.
use vstd::prelude::*;
use crate::cluster::messages::{
    CardViewResponseData, EnterpriseViewResponseData, PaymentType, PaymentViewResponseInfo,
    SendBroadcastOfSetOwnData, SetOwnData, Update, UpdateRegister, UpdateType,
};
use crate::cluster::repository_manager::RepositoryFault;
use crate::cluster::spending_info::limit_or_zero;

verus! {

/// A limit after a change that cannot go below zero.
pub open spec fn changed_limit_saturating(current: u32, amount: u32, update_type: UpdateType) -> int {
    match update_type {
        UpdateType::SetValue => amount as int,
        UpdateType::Increment => current + amount,
        UpdateType::Decrement => if current >= amount {
            current - amount
        } else {
            0
        },
    }
}

fn apply_change_saturating(current: u32, amount: u32, update_type: UpdateType) -> (r: Result<u32, RepositoryFault>)
    ensures
        changed_limit_saturating(current, amount, update_type) <= u32::MAX ==> r == Ok::<u32, RepositoryFault>(
            changed_limit_saturating(current, amount, update_type) as u32,
        ),
        changed_limit_saturating(current, amount, update_type) > u32::MAX ==> r == Err::<u32, RepositoryFault>(
            RepositoryFault::OutOfRange,
        ),
{
    match update_type {
        UpdateType::SetValue => Ok(amount),
        UpdateType::Increment => if current > u32::MAX - amount {
            Err(RepositoryFault::OutOfRange)
        } else {
            Ok(current + amount)
        },
        UpdateType::Decrement => Ok(current.saturating_sub(amount)),
    }
}

/// The write that a change of a card's limit makes, from the card's data.
pub open spec fn card_update_outcome(update: Update, response: CardViewResponseData, initial_leader: Option<u32>) -> Result<Option<SendBroadcastOfSetOwnData>, RepositoryFault> {
    match update {
        Update::CardLimitUpdate { enterprise_id, card_id, limit, update_type } => {
            let n = changed_limit_saturating(limit_or_zero(response.card_limit) as u32, limit, update_type);
            if n > u32::MAX {
                Err::<Option<SendBroadcastOfSetOwnData>, RepositoryFault>(RepositoryFault::OutOfRange)
            } else {
                Ok::<Option<SendBroadcastOfSetOwnData>, RepositoryFault>(Some(SendBroadcastOfSetOwnData {
                    command: SetOwnData {
                        enterprise_id,
                        data: UpdateRegister::CardLimitOrUsage {
                            card_id,
                            card_limit: n as u32,
                            card_usage: response.card_usage,
                            enterprise_limit: limit_or_zero(response.enterprise_limit) as u32,
                            enterprise_usage: response.enterprise_usage,
                        },
                    },
                    initial_leader,
                    result: true,
                    do_broadcast: true,
                }))
            }
        },
        _ => Ok::<Option<SendBroadcastOfSetOwnData>, RepositoryFault>(None),
    }
}

/// The write for a change of a card's limit, from the card's data fetched
/// from another node: `Ok(None)` when the update is not a card limit change;
/// `Err` when the new limit passes `u32::MAX`.
pub fn card_view_for_update(
    update: &Update,
    response: CardViewResponseData,
    initial_leader: Option<u32>,
) -> (r: Result<Option<SendBroadcastOfSetOwnData>, RepositoryFault>)
    ensures
        r == card_update_outcome(*update, response, initial_leader),
{
    match update {
        Update::CardLimitUpdate { enterprise_id, card_id, limit, update_type } => {
            let current = match response.card_limit {
                Some(l) => l,
                None => 0,
            };
            let new_card_limit = match apply_change_saturating(current, *limit, *update_type) {
                Ok(v) => v,
                Err(e) => return Err(e),
            };
            Ok(Some(SendBroadcastOfSetOwnData {
                command: SetOwnData {
                    enterprise_id: *enterprise_id,
                    data: UpdateRegister::CardLimitOrUsage {
                        card_id: *card_id,
                        card_limit: new_card_limit,
                        card_usage: response.card_usage,
                        enterprise_limit: match response.enterprise_limit {
                            Some(l) => l,
                            None => 0,
                        },
                        enterprise_usage: response.enterprise_usage,
                    },
                },
                initial_leader,
                result: true,
                do_broadcast: true,
            }))
        },
        _ => Ok(None),
    }
}

/// The write that a change of an enterprise's limit makes, from its data.
pub open spec fn enterprise_update_outcome(update: Update, response: EnterpriseViewResponseData, initial_leader: Option<u32>) -> Result<Option<SendBroadcastOfSetOwnData>, RepositoryFault> {
    match update {
        Update::EnterpriseLimitUpdate { enterprise_id, limit, update_type } => {
            let n = changed_limit_saturating(response.limit, limit, update_type);
            if n > u32::MAX {
                Err::<Option<SendBroadcastOfSetOwnData>, RepositoryFault>(RepositoryFault::OutOfRange)
            } else {
                Ok::<Option<SendBroadcastOfSetOwnData>, RepositoryFault>(Some(SendBroadcastOfSetOwnData {
                    command: SetOwnData {
                        enterprise_id,
                        data: UpdateRegister::EnterpriseLimit { limit: n as u32, usage: response.usage },
                    },
                    initial_leader,
                    result: true,
                    do_broadcast: true,
                }))
            }
        },
        _ => Ok::<Option<SendBroadcastOfSetOwnData>, RepositoryFault>(None),
    }
}

/// The write for a change of an enterprise's limit, from the enterprise's
/// data fetched from another node: `Ok(None)` when the update is not an
/// enterprise limit change; `Err` when the new limit passes `u32::MAX`.
pub fn enterprise_view_for_update(
    update: &Update,
    response: EnterpriseViewResponseData,
    initial_leader: Option<u32>,
) -> (r: Result<Option<SendBroadcastOfSetOwnData>, RepositoryFault>)
    ensures
        r == enterprise_update_outcome(*update, response, initial_leader),
{
    match update {
        Update::EnterpriseLimitUpdate { enterprise_id, limit, update_type } => {
            let new_limit = match apply_change_saturating(response.limit, *limit, *update_type) {
                Ok(v) => v,
                Err(e) => return Err(e),
            };
            Ok(Some(SendBroadcastOfSetOwnData {
                command: SetOwnData {
                    enterprise_id: *enterprise_id,
                    data: UpdateRegister::EnterpriseLimit { limit: new_limit, usage: response.usage },
                },
                initial_leader,
                result: true,
                do_broadcast: true,
            }))
        },
        _ => Ok(None),
    }
}

/// Whether a payment of `cost` keeps usage within the limits given; a
/// missing limit allows anything.
pub open spec fn payment_fits(info: PaymentViewResponseInfo, cost: u32) -> bool {
    &&& info.card_limit matches Some(l) ==> info.card_usage + cost <= l
    &&& info.enterprise_limit matches Some(l) ==> info.enterprise_usage + cost <= l
}

/// The write that a payment makes, from the data it is checked against.
pub open spec fn payment_outcome_from(update: Update, response: PaymentViewResponseInfo, initial_leader: Option<u32>) -> Result<Option<SendBroadcastOfSetOwnData>, RepositoryFault> {
    match update {
        Update::Payment { enterprise_id, card_id, cost, transaction_type, .. } => {
            if response.card_usage + cost > u32::MAX || response.enterprise_usage + cost > u32::MAX {
                Err::<Option<SendBroadcastOfSetOwnData>, RepositoryFault>(RepositoryFault::OutOfRange)
            } else {
                let accepted = transaction_type == PaymentType::ForcePayment || payment_fits(response, cost);
                Ok::<Option<SendBroadcastOfSetOwnData>, RepositoryFault>(Some(SendBroadcastOfSetOwnData {
                    command: SetOwnData {
                        enterprise_id,
                        data: UpdateRegister::CardLimitOrUsage {
                            card_id,
                            card_limit: limit_or_zero(response.card_limit) as u32,
                            card_usage: (response.card_usage + cost) as u32,
                            enterprise_limit: limit_or_zero(response.enterprise_limit) as u32,
                            enterprise_usage: (response.enterprise_usage + cost) as u32,
                        },
                    },
                    initial_leader,
                    result: accepted,
                    do_broadcast: accepted,
                }))
            }
        },
        _ => Ok::<Option<SendBroadcastOfSetOwnData>, RepositoryFault>(None),
    }
}

/// The write for a payment, from the data fetched from another node: both
/// usages grow by the cost. A forced payment is always accepted and sent to
/// every node; a verified one only when it fits the limits, and is otherwise
/// refused and not broadcast. `Ok(None)` when the update is not a payment;
/// `Err` when a usage would pass `u32::MAX`.
pub fn payment_view(
    update: &Update,
    response: PaymentViewResponseInfo,
    initial_leader: Option<u32>,
) -> (r: Result<Option<SendBroadcastOfSetOwnData>, RepositoryFault>)
    ensures
        r == payment_outcome_from(*update, response, initial_leader),
{
    match update {
        Update::Payment { enterprise_id, card_id, cost, transaction_type, .. } => {
            if response.card_usage > u32::MAX - *cost || response.enterprise_usage > u32::MAX - *cost {
                return Err(RepositoryFault::OutOfRange);
            }
            let card_usage = response.card_usage + *cost;
            let enterprise_usage = response.enterprise_usage + *cost;
            let command = SetOwnData {
                enterprise_id: *enterprise_id,
                data: UpdateRegister::CardLimitOrUsage {
                    card_id: *card_id,
                    card_limit: match response.card_limit {
                        Some(l) => l,
                        None => 0,
                    },
                    card_usage,
                    enterprise_limit: match response.enterprise_limit {
                        Some(l) => l,
                        None => 0,
                    },
                    enterprise_usage,
                },
            };
            let accepted = match transaction_type {
                PaymentType::ForcePayment => true,
                PaymentType::PaymentVerification => {
                    let card_limit = match response.card_limit {
                        Some(l) => l,
                        None => card_usage,
                    };
                    let enterprise_limit = match response.enterprise_limit {
                        Some(l) => l,
                        None => enterprise_usage,
                    };
                    !(card_usage > card_limit || enterprise_usage > enterprise_limit)
                },
            };
            Ok(Some(SendBroadcastOfSetOwnData {
                command,
                initial_leader,
                result: accepted,
                do_broadcast: accepted,
            }))
        },
        _ => Ok(None),
    }
}

/// A verified payment is accepted exactly when, after it, the card's usage
/// is within the card's limit and the enterprise's usage within the
/// enterprise's limit (a missing limit bounds nothing); a forced one always
/// is. Either way both usages grow by the cost, and a payment is broadcast
/// exactly when it is accepted. It fails only when a usage would pass
/// `u32::MAX`.
pub proof fn law_payment_view_respects_limits(
    payment_id: String,
    enterprise_id: u32,
    card_id: u32,
    cost: u32,
    transaction_type: PaymentType,
    response: PaymentViewResponseInfo,
    initial_leader: Option<u32>,
)
    ensures
        ({
            let update = Update::Payment { payment_id, enterprise_id, card_id, cost, transaction_type };
            let r = payment_outcome_from(update, response, initial_leader);
            let fits_card = response.card_limit matches Some(l) ==> response.card_usage + cost <= l;
            let fits_enterprise = response.enterprise_limit matches Some(l) ==> response.enterprise_usage + cost <= l;
            &&& (response.card_usage + cost > u32::MAX || response.enterprise_usage + cost > u32::MAX) <==> r
                == Err::<Option<SendBroadcastOfSetOwnData>, RepositoryFault>(RepositoryFault::OutOfRange)
            &&& r is Ok ==> (r matches Ok(Some(b)) && {
                &&& b.do_broadcast == b.result
                &&& b.initial_leader == initial_leader
                &&& b.command.enterprise_id == enterprise_id
                &&& transaction_type == PaymentType::ForcePayment ==> b.result
                &&& transaction_type == PaymentType::PaymentVerification ==> (b.result <==> (fits_card
                    && fits_enterprise))
                &&& b.command.data matches UpdateRegister::CardLimitOrUsage { card_id: c, card_usage: cu, enterprise_usage: eu, .. }
                    && c == card_id && cu == response.card_usage + cost && eu == response.enterprise_usage + cost
            })
        }),
{
}

/// A change of an enterprise's limit, from the data of another node, writes
/// the limit that node has with the change applied: the amount added for an
/// increment, taken away for a decrement (down to zero at most), or the
/// amount itself for a set; the usage is the one that node has. It fails
/// only when an increment would pass `u32::MAX`.
pub proof fn law_enterprise_change_from_fetched_limit(
    enterprise_id: u32,
    amount: u32,
    update_type: UpdateType,
    response: EnterpriseViewResponseData,
    initial_leader: Option<u32>,
)
    ensures
        ({
            let update = Update::EnterpriseLimitUpdate { enterprise_id, limit: amount, update_type };
            let r = enterprise_update_outcome(update, response, initial_leader);
            &&& (update_type == UpdateType::Increment && response.limit + amount > u32::MAX) <==> r
                == Err::<Option<SendBroadcastOfSetOwnData>, RepositoryFault>(RepositoryFault::OutOfRange)
            &&& r is Ok ==> (r matches Ok(Some(b)) && {
                &&& b.result && b.do_broadcast
                &&& b.initial_leader == initial_leader
                &&& b.command.enterprise_id == enterprise_id
                &&& b.command.data matches UpdateRegister::EnterpriseLimit { limit: n, usage } && usage == response.usage && {
                    &&& update_type == UpdateType::Increment ==> n == response.limit + amount
                    &&& (update_type == UpdateType::Decrement && amount <= response.limit) ==> n + amount == response.limit
                    &&& (update_type == UpdateType::Decrement && amount > response.limit) ==> n == 0
                    &&& update_type == UpdateType::SetValue ==> n == amount
                }
            })
        }),
{
}

/// A change of a card's limit, from the data of another node, writes the
/// card's limit there (zero when it has none) with the change applied, and
/// the usages and the enterprise's limit as that node has them. It fails
/// only when an increment would pass `u32::MAX`.
pub proof fn law_card_change_from_fetched_limit(
    enterprise_id: u32,
    card_id: u32,
    amount: u32,
    update_type: UpdateType,
    response: CardViewResponseData,
    initial_leader: Option<u32>,
)
    ensures
        ({
            let update = Update::CardLimitUpdate { enterprise_id, card_id, limit: amount, update_type };
            let r = card_update_outcome(update, response, initial_leader);
            let current: int = match response.card_limit {
                Some(l) => l as int,
                None => 0,
            };
            &&& (update_type == UpdateType::Increment && current + amount > u32::MAX) <==> r
                == Err::<Option<SendBroadcastOfSetOwnData>, RepositoryFault>(RepositoryFault::OutOfRange)
            &&& r is Ok ==> (r matches Ok(Some(b)) && {
                &&& b.result && b.do_broadcast
                &&& b.initial_leader == initial_leader
                &&& b.command.enterprise_id == enterprise_id
                &&& b.command.data matches UpdateRegister::CardLimitOrUsage { card_id: c, card_limit: n, card_usage: cu, enterprise_limit: el, enterprise_usage: eu }
                    && c == card_id && cu == response.card_usage && eu == response.enterprise_usage
                    && (response.enterprise_limit matches Some(l) ==> el == l)
                    && (response.enterprise_limit is None ==> el == 0) && {
                    &&& update_type == UpdateType::Increment ==> n == current + amount
                    &&& (update_type == UpdateType::Decrement && amount <= current) ==> n + amount == current
                    &&& (update_type == UpdateType::Decrement && amount > current) ==> n == 0
                    &&& update_type == UpdateType::SetValue ==> n == amount
                }
            })
        }),
{
}

} // verus!

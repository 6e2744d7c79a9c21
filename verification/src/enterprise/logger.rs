//! The lines the enterprise prints about what happens to it.
use vstd::prelude::*;
use crate::text::{decimal, push_decimal, push_str};

verus! {

/// Something worth a line in the enterprise's log.
#[derive(Debug, Clone)]
pub enum LogEvent {
    Transaction { card_id: u32, amount: u32, station_id: u32 },
    CardView { card_id: u32, usage: u32, limit: u32 },
    EnterpriseView { usage: u32, limit: u32 },
    FirstMsg { from: u32, data: String },
}

/// Writes the enterprise's log.
pub struct Logger;

/// The line printed for an event; the greeting of a node prints nothing.
pub open spec fn log_line(event: LogEvent) -> Option<Seq<char>> {
    match event {
        LogEvent::Transaction { card_id, amount, station_id } => Some(
            "[PROXY] Card "@ + decimal(card_id as nat) + " - Amount "@ + decimal(amount as nat) + " - Station "@
                + decimal(station_id as nat),
        ),
        LogEvent::CardView { card_id, usage, limit } => Some(
            "[ADMIN] Card "@ + decimal(card_id as nat) + " - Usage: "@ + decimal(usage as nat) + " - Limit: "@
                + decimal(limit as nat),
        ),
        LogEvent::EnterpriseView { usage, limit } => Some(
            "[ADMIN] Enterprise - Usage: "@ + decimal(usage as nat) + " - Limit: "@ + decimal(limit as nat),
        ),
        LogEvent::FirstMsg { .. } => None,
    }
}

impl Logger {
    /// The line to print for `event`, if any.
    pub fn format(&self, event: &LogEvent) -> (r: Option<String>)
        ensures
            log_line(*event) matches Some(l) ==> (r matches Some(s) && s@ == l),
            log_line(*event) is None ==> r is None,
    {
        match event {
            LogEvent::Transaction { card_id, amount, station_id } => {
                let mut s = String::new();
                push_str(&mut s, "[PROXY] Card ");
                push_decimal(&mut s, *card_id as u64);
                push_str(&mut s, " - Amount ");
                push_decimal(&mut s, *amount as u64);
                push_str(&mut s, " - Station ");
                push_decimal(&mut s, *station_id as u64);
                assert(s@ =~= "[PROXY] Card "@ + decimal(*card_id as nat) + " - Amount "@ + decimal(*amount as nat)
                    + " - Station "@ + decimal(*station_id as nat));
                Some(s)
            },
            LogEvent::CardView { card_id, usage, limit } => {
                let mut s = String::new();
                push_str(&mut s, "[ADMIN] Card ");
                push_decimal(&mut s, *card_id as u64);
                push_str(&mut s, " - Usage: ");
                push_decimal(&mut s, *usage as u64);
                push_str(&mut s, " - Limit: ");
                push_decimal(&mut s, *limit as u64);
                assert(s@ =~= "[ADMIN] Card "@ + decimal(*card_id as nat) + " - Usage: "@ + decimal(*usage as nat)
                    + " - Limit: "@ + decimal(*limit as nat));
                Some(s)
            },
            LogEvent::EnterpriseView { usage, limit } => {
                let mut s = String::new();
                push_str(&mut s, "[ADMIN] Enterprise - Usage: ");
                push_decimal(&mut s, *usage as u64);
                push_str(&mut s, " - Limit: ");
                push_decimal(&mut s, *limit as u64);
                assert(s@ =~= "[ADMIN] Enterprise - Usage: "@ + decimal(*usage as nat) + " - Limit: "@ + decimal(
                    *limit as nat,
                ));
                Some(s)
            },
            LogEvent::FirstMsg { .. } => None,
        }
    }
}

} // verus!

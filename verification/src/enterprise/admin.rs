//! The administrator's console commands.
use vstd::prelude::*;
use crate::cluster::messages::UpdateType;
use crate::text::{parse_u32, parse_unsigned, push_str, split_whitespace, views, words};

verus! {

/// A command of the administrator.
#[derive(Debug, Clone, Copy, PartialEq, Eq, Structural)]
pub enum AdminCommand {
    UpdateEnterpriseLimit { limit: u32, update_type: UpdateType },
    UpdateCardLimit { card_id: u32, limit: u32, update_type: UpdateType },
    CardView { card_id: u32 },
    EnterpriseView {},
}

/// Why a line is not a command.
#[derive(Debug, Clone)]
pub enum ParseCommandError {
    /// Nothing was typed.
    Empty,
    /// The words match no command; carries the line.
    UnknownCommand(String),
    /// The words name a command with a wrong argument; carries the reason.
    InvalidArguments(String),
}

/// The console of the administrator.
pub struct AdminInput;

/// The change that an operation word names.
pub open spec fn update_type_of(s: Seq<char>) -> Option<UpdateType> {
    if s == "add"@ {
        Some(UpdateType::Increment)
    } else if s == "sub"@ {
        Some(UpdateType::Decrement)
    } else if s == "set"@ {
        Some(UpdateType::SetValue)
    } else {
        None
    }
}

/// A number argument.
pub open spec fn number(s: Seq<char>) -> Option<u32> {
    match parse_unsigned(s, u32::MAX as nat) {
        Some(n) => Some(n as u32),
        None => None,
    }
}

/// What a line of the console means; `None` for an error.
pub open spec fn command_of(line: Seq<char>) -> Option<AdminCommand> {
    let w = words(line);
    if line.len() == 0 {
        None
    } else if w.len() == 2 && w[0] == "enterprise"@ && w[1] == "view"@ {
        Some(AdminCommand::EnterpriseView {})
    } else if w.len() == 3 && w[0] == "card"@ && w[1] == "view"@ {
        match number(w[2]) {
            Some(card_id) => Some(AdminCommand::CardView { card_id }),
            None => None,
        }
    } else if w.len() == 4 && w[0] == "card"@ {
        match (update_type_of(w[1]), number(w[2]), number(w[3])) {
            (Some(update_type), Some(card_id), Some(limit)) => Some(AdminCommand::UpdateCardLimit { card_id, limit, update_type }),
            _ => None,
        }
    } else if w.len() == 3 && w[0] == "enterprise"@ {
        match (update_type_of(w[1]), number(w[2])) {
            (Some(update_type), Some(limit)) => Some(AdminCommand::UpdateEnterpriseLimit { limit, update_type }),
            _ => None,
        }
    } else {
        None
    }
}

/// The reason given for a command with a wrong argument.
pub open spec fn argument_error(line: Seq<char>) -> Option<Seq<char>> {
    let w = words(line);
    let card_msg = "Card ID must be a number."@;
    let limit_msg = "Limit must be a positive number."@;
    if line.len() == 0 {
        None
    } else if w.len() == 2 && w[0] == "enterprise"@ && w[1] == "view"@ {
        None
    } else if w.len() == 3 && w[0] == "card"@ && w[1] == "view"@ {
        if number(w[2]) is None {
            Some(card_msg)
        } else {
            None
        }
    } else if w.len() == 4 && w[0] == "card"@ {
        if update_type_of(w[1]) is None {
            Some("Invalid update type '"@ + w[1] + "'"@)
        } else if number(w[2]) is None {
            Some(card_msg)
        } else if number(w[3]) is None {
            Some(limit_msg)
        } else {
            None
        }
    } else if w.len() == 3 && w[0] == "enterprise"@ {
        if update_type_of(w[1]) is None {
            Some("Invalid update type '"@ + w[1] + "'"@)
        } else if number(w[2]) is None {
            Some(limit_msg)
        } else {
            None
        }
    } else {
        None
    }
}

/// The error for a line that is not a command, when it is not empty.
pub open spec fn is_unknown_command(line: Seq<char>) -> bool {
    let w = words(line);
    line.len() > 0 && !(w.len() == 2 && w[0] == "enterprise"@ && w[1] == "view"@) && !(w.len() == 3 && w[0]
        == "card"@ && w[1] == "view"@) && !(w.len() == 4 && w[0] == "card"@) && !(w.len() == 3 && w[0]
        == "enterprise"@)
}

fn str_eq(a: &String, b: &str) -> (r: bool)
    ensures
        r == (a@ == b@),
{
    let t = String::from_str(b);
    *a == t
}

impl AdminInput {
    /// The change that `s` names: `add`, `sub` or `set`.
    fn parse_update_type(s: &String) -> (r: Result<UpdateType, ParseCommandError>)
        ensures
            update_type_of(s@) matches Some(t) ==> (r matches Ok(u) && u == t),
            update_type_of(s@) is None ==> (r matches Err(ParseCommandError::InvalidArguments(m)) && m@ == "Invalid update type '"@ + s@ + "'"@),
    {
        if str_eq(s, "add") {
            Ok(UpdateType::Increment)
        } else if str_eq(s, "sub") {
            Ok(UpdateType::Decrement)
        } else if str_eq(s, "set") {
            Ok(UpdateType::SetValue)
        } else {
            let mut m = String::new();
            push_str(&mut m, "Invalid update type '");
            push_str(&mut m, s.as_str());
            push_str(&mut m, "'");
            assert(m@ =~= "Invalid update type '"@ + s@ + "'"@);
            Err(ParseCommandError::InvalidArguments(m))
        }
    }

    /// Reads a command from a line of the console.
    pub fn parse_command(input: &str) -> (r: Result<AdminCommand, ParseCommandError>)
        ensures
            command_of(input@) matches Some(c) ==> (r matches Ok(d) && d == c),
            command_of(input@) is None ==> r is Err,
            input@.len() == 0 ==> r matches Err(ParseCommandError::Empty),
            is_unknown_command(input@) ==> (r matches Err(ParseCommandError::UnknownCommand(l)) && l@ == input@),
            argument_error(input@) matches Some(m) ==> (r matches Err(ParseCommandError::InvalidArguments(x)) && x@ == m),
    {
        if input.is_empty() {
            return Err(ParseCommandError::Empty);
        }
        let parts = split_whitespace(input);
        let ghost w = words(input@);
        assert(views(parts@) == w);
        if parts.len() == 2 {
            assert(views(parts@)[0] == parts@[0]@);
            assert(views(parts@)[1] == parts@[1]@);
            if str_eq(&parts[0], "enterprise") && str_eq(&parts[1], "view") {
                return Ok(AdminCommand::EnterpriseView {});
            }
        }
        if parts.len() == 3 {
            assert(views(parts@)[0] == parts@[0]@);
            assert(views(parts@)[1] == parts@[1]@);
            assert(views(parts@)[2] == parts@[2]@);
            if str_eq(&parts[0], "card") && str_eq(&parts[1], "view") {
                return match parse_u32(parts[2].as_str()) {
                    Some(card_id) => Ok(AdminCommand::CardView { card_id }),
                    None => Err(Self::invalid_card_id()),
                };
            }
        }
        if parts.len() == 4 {
            assert(views(parts@)[0] == parts@[0]@);
            assert(views(parts@)[1] == parts@[1]@);
            assert(views(parts@)[2] == parts@[2]@);
            assert(views(parts@)[3] == parts@[3]@);
            if str_eq(&parts[0], "card") {
                let update_type = match Self::parse_update_type(&parts[1]) {
                    Ok(t) => t,
                    Err(e) => return Err(e),
                };
                let card_id = match parse_u32(parts[2].as_str()) {
                    Some(n) => n,
                    None => return Err(Self::invalid_card_id()),
                };
                let limit = match parse_u32(parts[3].as_str()) {
                    Some(n) => n,
                    None => return Err(Self::invalid_limit()),
                };
                return Ok(AdminCommand::UpdateCardLimit { card_id, limit, update_type });
            }
        }
        if parts.len() == 3 {
            if str_eq(&parts[0], "enterprise") {
                let update_type = match Self::parse_update_type(&parts[1]) {
                    Ok(t) => t,
                    Err(e) => return Err(e),
                };
                let limit = match parse_u32(parts[2].as_str()) {
                    Some(n) => n,
                    None => return Err(Self::invalid_limit()),
                };
                return Ok(AdminCommand::UpdateEnterpriseLimit { limit, update_type });
            }
        }
        Err(ParseCommandError::UnknownCommand(String::from_str(input)))
    }

    fn invalid_card_id() -> (r: ParseCommandError)
        ensures
            r matches ParseCommandError::InvalidArguments(m) && m@ == "Card ID must be a number."@,
    {
        ParseCommandError::InvalidArguments(String::from_str("Card ID must be a number."))
    }

    fn invalid_limit() -> (r: ParseCommandError)
        ensures
            r matches ParseCommandError::InvalidArguments(m) && m@ == "Limit must be a positive number."@,
    {
        ParseCommandError::InvalidArguments(String::from_str("Limit must be a positive number."))
    }
}

proof fn lemma_operation_words_differ()
    ensures
        "add"@ != "sub"@,
        "add"@ != "set"@,
        "sub"@ != "set"@,
{
    reveal_strlit("add");
    reveal_strlit("sub");
    reveal_strlit("set");
    assert("add"@[0] != "sub"@[0]);
    assert("add"@[0] != "set"@[0]);
    assert("sub"@[1] != "set"@[1]);
}

/// The operation word of a change names it: `add` an increment, `sub` a
/// decrement and `set` a new value, for a card's limit and for the
/// enterprise's alike; a change read from a line always has one of these
/// words in its place.
pub proof fn law_operation_word_names_change(line: Seq<char>)
    ensures
        command_of(line) matches Some(AdminCommand::UpdateCardLimit { update_type, .. }) ==> {
            let w = words(line);
            &&& w.len() == 4 && w[0] == "card"@
            &&& w[1] == "add"@ <==> update_type == UpdateType::Increment
            &&& w[1] == "sub"@ <==> update_type == UpdateType::Decrement
            &&& w[1] == "set"@ <==> update_type == UpdateType::SetValue
        },
        command_of(line) matches Some(AdminCommand::UpdateEnterpriseLimit { update_type, .. }) ==> {
            let w = words(line);
            &&& w.len() == 3 && w[0] == "enterprise"@
            &&& w[1] == "add"@ <==> update_type == UpdateType::Increment
            &&& w[1] == "sub"@ <==> update_type == UpdateType::Decrement
            &&& w[1] == "set"@ <==> update_type == UpdateType::SetValue
        },
{
    reveal_strlit("add");
    reveal_strlit("sub");
    reveal_strlit("set");
    reveal_strlit("card");
    reveal_strlit("enterprise");
    reveal_strlit("view");
    lemma_operation_words_differ();
}

/// A card change whose words are `card`, an operation word and two numbers
/// is read as that change of that card: `sub` takes the amount away, `add`
/// adds it, `set` sets it.
pub proof fn law_card_change_is_read(line: Seq<char>, op: Seq<char>, card_id: u32, limit: u32)
    requires
        words(line).len() == 4,
        words(line)[0] == "card"@,
        words(line)[1] == op,
        number(words(line)[2]) == Some(card_id),
        number(words(line)[3]) == Some(limit),
        op == "add"@ || op == "sub"@ || op == "set"@,
    ensures
        op == "add"@ ==> command_of(line) == Some(AdminCommand::UpdateCardLimit { card_id, limit, update_type: UpdateType::Increment }),
        op == "sub"@ ==> command_of(line) == Some(AdminCommand::UpdateCardLimit { card_id, limit, update_type: UpdateType::Decrement }),
        op == "set"@ ==> command_of(line) == Some(AdminCommand::UpdateCardLimit { card_id, limit, update_type: UpdateType::SetValue }),
{
    reveal_strlit("add");
    reveal_strlit("sub");
    reveal_strlit("set");
    reveal_strlit("card");
    reveal_strlit("enterprise");
    reveal_strlit("view");
    lemma_operation_words_differ();
    if line.len() == 0 {
        assert(words(line).len() == 0);
    }
}

/// The queries are read as what they ask: `enterprise view` the
/// enterprise's data, `card view` and a number that card's data; an
/// enterprise change with `add`, `sub` or `set` and a number is read as that
/// change of the enterprise's limit.
pub proof fn law_queries_and_enterprise_changes_are_read(line: Seq<char>, op: Seq<char>, n: u32)
    ensures
        (words(line) == seq!["enterprise"@, "view"@]) ==> command_of(line) == Some(AdminCommand::EnterpriseView {}),
        (words(line).len() == 3 && words(line)[0] == "card"@ && words(line)[1] == "view"@ && number(words(line)[2])
            == Some(n)) ==> command_of(line) == Some(AdminCommand::CardView { card_id: n }),
        (words(line).len() == 3 && words(line)[0] == "enterprise"@ && words(line)[1] == op && number(words(line)[2])
            == Some(n)) ==> {
            &&& op == "add"@ ==> command_of(line) == Some(AdminCommand::UpdateEnterpriseLimit { limit: n, update_type: UpdateType::Increment })
            &&& op == "sub"@ ==> command_of(line) == Some(AdminCommand::UpdateEnterpriseLimit { limit: n, update_type: UpdateType::Decrement })
            &&& op == "set"@ ==> command_of(line) == Some(AdminCommand::UpdateEnterpriseLimit { limit: n, update_type: UpdateType::SetValue })
        },
{
    reveal_strlit("add");
    reveal_strlit("sub");
    reveal_strlit("set");
    reveal_strlit("card");
    reveal_strlit("enterprise");
    reveal_strlit("view");
    lemma_operation_words_differ();
    assert("card"@[0] != "enterprise"@[0]);
    assert("view"@[0] != "add"@[0] && "view"@[0] != "sub"@[0] && "view"@[0] != "set"@[0]);
    if line.len() == 0 {
        assert(words(line).len() == 0);
    }
}

} // verus!

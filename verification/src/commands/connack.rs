use vstd::prelude::*;

use crate::cli::command::Command as ParsedCommand;
use crate::cli::spec;
use crate::cli::spec::command::lemma_fresh_short;
use crate::cli::spec::flag::{lookup_result, Query, QueryView};
use crate::command::arg::ArgView;
use crate::mqtt::packet::{Connack, ConnectReturnCode, Packet};

verus! {

/// The return code that a text names; `Accepted` for any other text.
pub open spec fn return_code_named(code: Seq<char>) -> ConnectReturnCode {
    if code == "RefusedProtocolVersion"@ {
        ConnectReturnCode::RefusedProtocolVersion
    } else if code == "RefusedIdentifierRejected"@ {
        ConnectReturnCode::RefusedIdentifierRejected
    } else if code == "ServerUnavailable"@ {
        ConnectReturnCode::ServerUnavailable
    } else if code == "BadUsernamePassword"@ {
        ConnectReturnCode::BadUsernamePassword
    } else if code == "NotAuthorized"@ {
        ConnectReturnCode::NotAuthorized
    } else {
        ConnectReturnCode::Accepted
    }
}

/// The name of a return code.
pub open spec fn code_text(c: ConnectReturnCode) -> Seq<char> {
    match c {
        ConnectReturnCode::Accepted => "Accepted"@,
        ConnectReturnCode::RefusedProtocolVersion => "RefusedProtocolVersion"@,
        ConnectReturnCode::RefusedIdentifierRejected => "RefusedIdentifierRejected"@,
        ConnectReturnCode::ServerUnavailable => "ServerUnavailable"@,
        ConnectReturnCode::BadUsernamePassword => "BadUsernamePassword"@,
        ConnectReturnCode::NotAuthorized => "NotAuthorized"@,
    }
}

/// Every return code is read back from its own name, and a text that names
/// a refusal is exactly that refusal's name.
pub proof fn lemma_return_code_names(c: ConnectReturnCode, t: Seq<char>)
    ensures
        return_code_named(code_text(c)) == c,
        return_code_named(t) != ConnectReturnCode::Accepted ==> t == code_text(return_code_named(t)),
{
    reveal_strlit("Accepted");
    reveal_strlit("RefusedProtocolVersion");
    reveal_strlit("RefusedIdentifierRejected");
    reveal_strlit("ServerUnavailable");
    reveal_strlit("BadUsernamePassword");
    reveal_strlit("NotAuthorized");
    // the six names have six different lengths
    assert("Accepted"@.len() == 8);
    assert("RefusedProtocolVersion"@.len() == 22);
    assert("RefusedIdentifierRejected"@.len() == 25);
    assert("ServerUnavailable"@.len() == 17);
    assert("BadUsernamePassword"@.len() == 19);
    assert("NotAuthorized"@.len() == 13);
}

/// The return code that a text names.
pub fn string_to_connect_return_code(code: &str) -> (res: ConnectReturnCode)
    ensures
        res == return_code_named(code@),
{
    if crate::text::str_eq(code, "RefusedProtocolVersion") {
        ConnectReturnCode::RefusedProtocolVersion
    } else if crate::text::str_eq(code, "RefusedIdentifierRejected") {
        ConnectReturnCode::RefusedIdentifierRejected
    } else if crate::text::str_eq(code, "ServerUnavailable") {
        ConnectReturnCode::ServerUnavailable
    } else if crate::text::str_eq(code, "BadUsernamePassword") {
        ConnectReturnCode::BadUsernamePassword
    } else if crate::text::str_eq(code, "NotAuthorized") {
        ConnectReturnCode::NotAuthorized
    } else {
        ConnectReturnCode::Accepted
    }
}

/// Send a Connack to the broker (which the protocol does not allow; for
/// debugging).
pub fn connack() -> (res: spec::Command)
    ensures
        res.wf(),
        res.spec_name() == "connack"@,
        res.spec_description() == "[Debug] Send a connack request to the broker. (This is illegal.)"@,
        res.spec_usage() == "{$name} {$flags}"@,
        res.flag_views() == seq![
            (("session-present"@, 's'), spec::Arg::NoArg, "If this flag is present, the session-present bit will be set."@),
            (("code"@, 'c'), spec::Arg::Required, "Specify the Connect Reason Code. Defaults to Accepted if not present."@),
        ],
{
    let c = spec::Command::build("connack").set_description(
        "[Debug] Send a connack request to the broker. (This is illegal.)",
    ).set_usage("{$name} {$flags}");
    assert(c.flag_views() =~= Seq::empty());
    proof {
        lemma_fresh_short(&c, "session-present"@, 's');
    }
    let c = c.add_flag(
        "session-present",
        's',
        spec::Arg::NoArg,
        "If this flag is present, the session-present bit will be set.",
    );
    proof {
        lemma_fresh_short(&c, "code"@, 'c');
    }
    let c = c.add_flag(
        "code",
        'c',
        spec::Arg::Required,
        "Specify the Connect Reason Code. Defaults to Accepted if not present.",
    );
    c
}

/// The Connack that the `connack` command sends.
pub open spec fn connack_of(command: &ParsedCommand) -> Packet {
    Packet::Connack(
        Connack {
            session_present: command.has_flag(QueryView::Short('s')),
            code: if command.has_flag(QueryView::Short('c')) {
                return_code_named(
                    match command.flag_arg(QueryView::Short('c')) {
                        Some(text) => text,
                        None => Seq::empty(),
                    },
                )
            } else {
                ConnectReturnCode::Accepted
            },
        },
    )
}

/// The Connack that the `connack` command sends: the session-present bit
/// set if `-s` is given, and the return code that `-c` names (`Accepted`
/// without it).
pub fn connack_packet(command: &ParsedCommand) -> (res: Packet)
    ensures
        res == connack_of(command),

{
    let session_present = command.get_flag(Query::Short('s')).is_some();
    let code = match command.get_flag(Query::Short('c')) {
        Some(f) => {
            let raw = match f.arg().raw() {
                Some(s) => s,
                None => String::new(),
            };
            string_to_connect_return_code(raw.as_str())
        },
        None => ConnectReturnCode::Accepted,
    };
    Packet::Connack(Connack { session_present, code })
}

} // verus!

use vstd::prelude::*;

use crate::text::{decimal, push_decimal, push_str, string_from_chars};

verus! {

/// The text of the shell prompt: `client@host:port`, with ` [DEBUG]` in
/// debug mode. (It is shown in red in debug mode and in yellow otherwise.)
pub fn prompt_text(client_id: &str, hostname: &str, port: u16, debug: bool) -> (res: String)
    ensures
        res@ == client_id@ + seq!['@'] + hostname@ + seq![':'] + decimal(port as nat) + if debug {
            " [DEBUG]"@
        } else {
            Seq::<char>::empty()
        },
{
    let mut chars: Vec<char> = Vec::new();
    push_str(&mut chars, client_id);
    chars.push('@');
    push_str(&mut chars, hostname);
    chars.push(':');
    push_decimal(&mut chars, port as usize);
    if debug {
        push_str(&mut chars, " [DEBUG]");
    }
    assert(chars@ =~= client_id@ + seq!['@'] + hostname@ + seq![':'] + decimal(port as nat) + if debug {
        " [DEBUG]"@
    } else {
        Seq::<char>::empty()
    });
    string_from_chars(&chars)
}

} // verus!

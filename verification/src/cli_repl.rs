//! The interactive terminal chat adapter: its name, its message identifiers and the
//! text it reads from a line. Reading the terminal and printing replies is left to the
//! caller.
use vstd::prelude::*;

use crate::text::{
    decimal, eq_ignore_ascii_case, eq_ignore_case_chars, push_decimal, push_str, str_chars,
    string_from_chars, trim, trim_end_by, trim_end_string, trim_str, CharClass,
};

verus! {

/// Name under which the terminal adapter registers.
pub open spec fn cli_adapter_name() -> Seq<char> {
    "cli"@
}

/// Identifier of the `n`-th message the terminal adapter reads or writes.
pub open spec fn cli_message_id(n: u64) -> Seq<char> {
    "cli-"@ + decimal(n as nat)
}

/// Interactive terminal chat adapter state: the session it serves and its message
/// counter.
pub struct CliReplChatAdapter {
    session_id: String,
    msg_counter: u64,
}

impl CliReplChatAdapter {
    /// The session the adapter serves.
    pub closed spec fn spec_session_id(&self) -> Seq<char> {
        self.session_id@
    }

    /// The number of the next message identifier.
    pub closed spec fn counter(&self) -> u64 {
        self.msg_counter
    }

    /// Create a terminal adapter for a session; message numbering starts at zero.
    pub fn new(session_id: String) -> (r: Self)
        ensures
            r.spec_session_id() == session_id@,
            r.counter() == 0,
    {
        CliReplChatAdapter { session_id, msg_counter: 0 }
    }

    /// Name under which the adapter registers.
    pub fn name(&self) -> (r: &'static str)
        ensures
            r@ == cli_adapter_name(),
    {
        "cli"
    }

    /// The session the adapter serves.
    pub fn session_id(&self) -> (r: &str)
        ensures
            r@ == self.spec_session_id(),
    {
        self.session_id.as_str()
    }

    /// The next message identifier; numbering moves on by one.
    pub fn next_id(&mut self) -> (r: String)
        ensures
            r@ == cli_message_id(old(self).counter()),
            final(self).counter() == old(self).counter().wrapping_add(1),
            final(self).spec_session_id() == old(self).spec_session_id(),
    {
        let n = self.msg_counter;
        self.msg_counter = self.msg_counter.wrapping_add(1);
        let mut out: Vec<char> = Vec::new();
        push_str(&mut out, "cli-");
        push_decimal(&mut out, n);
        string_from_chars(out.as_slice())
    }
}

/// The message text of a line read from the terminal: the line without its trailing
/// white space, line break included.
pub fn line_text(line: &str) -> (r: String)
    ensures
        r@ == trim_end_by(line@, CharClass::WhiteSpace),
{
    trim_end_string(line)
}

/// What a line typed at the interactive prompt asks for.
pub enum ReplInput {
    /// A blank line: prompt again.
    Skip,
    /// `/quit` or `/exit`, in any ASCII case: leave.
    Quit,
    /// Anything else: run a turn on the trimmed line.
    Prompt(String),
}

/// What a line typed at the interactive prompt asks for.
pub fn repl_input(line: &str) -> (r: ReplInput)
    ensures
        trim(line@).len() == 0 ==> r is Skip,
        trim(line@).len() > 0 && (eq_ignore_ascii_case(trim(line@), "/quit"@) || eq_ignore_ascii_case(
            trim(line@),
            "/exit"@,
        )) ==> r is Quit,
        trim(line@).len() > 0 && !eq_ignore_ascii_case(trim(line@), "/quit"@) && !eq_ignore_ascii_case(
            trim(line@),
            "/exit"@,
        ) ==> r matches ReplInput::Prompt(_),
        r matches ReplInput::Prompt(p) ==> p@ == trim(line@) && p@.len() > 0 && !eq_ignore_ascii_case(
            p@,
            "/quit"@,
        ) && !eq_ignore_ascii_case(p@, "/exit"@),
{
    let input = trim_str(line);
    if input.len() == 0 {
        return ReplInput::Skip;
    }
    let quit = str_chars("/quit");
    let exit = str_chars("/exit");
    if eq_ignore_case_chars(&input, &quit) || eq_ignore_case_chars(&input, &exit) {
        return ReplInput::Quit;
    }
    ReplInput::Prompt(string_from_chars(input.as_slice()))
}

} // verus!

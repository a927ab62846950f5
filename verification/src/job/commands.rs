//! Workflow commands that steps write to their output.
use vstd::prelude::*;
use vstd::string::*;

use crate::text;

verus! {

/// A command in a line of output.
#[derive(Debug, PartialEq)]
pub enum WorkflowCommand {
    SetOutput { name: String, value: String },
    SetEnv { name: String, value: String },
    AddPath(String),
    AddMask(String),
    Debug(String),
    Warning(String),
    Error(String),
    Group(String),
    EndGroup,
    SaveState { name: String, value: String },
}

/// What a [`WorkflowCommand`] is.
pub enum CommandV {
    SetOutput(Seq<char>, Seq<char>),
    SetEnv(Seq<char>, Seq<char>),
    AddPath(Seq<char>),
    AddMask(Seq<char>),
    Debug(Seq<char>),
    Warning(Seq<char>),
    Error(Seq<char>),
    Group(Seq<char>),
    EndGroup,
    SaveState(Seq<char>, Seq<char>),
}

impl View for WorkflowCommand {
    type V = CommandV;

    open spec fn view(&self) -> CommandV {
        match *self {
            WorkflowCommand::SetOutput { name, value } => CommandV::SetOutput(name@, value@),
            WorkflowCommand::SetEnv { name, value } => CommandV::SetEnv(name@, value@),
            WorkflowCommand::AddPath(s) => CommandV::AddPath(s@),
            WorkflowCommand::AddMask(s) => CommandV::AddMask(s@),
            WorkflowCommand::Debug(s) => CommandV::Debug(s@),
            WorkflowCommand::Warning(s) => CommandV::Warning(s@),
            WorkflowCommand::Error(s) => CommandV::Error(s@),
            WorkflowCommand::Group(s) => CommandV::Group(s@),
            WorkflowCommand::EndGroup => CommandV::EndGroup,
            WorkflowCommand::SaveState { name, value } => CommandV::SaveState(name@, value@),
        }
    }
}

/// A line without the line ends behind it.
pub open spec fn unended(s: Seq<char>) -> Seq<char>
    decreases s.len(),
{
    if s.len() > 0 && (s.last() == '\r' || s.last() == '\n') {
        unended(s.drop_last())
    } else {
        s
    }
}

/// The first of some parts, without white space around it, that begins with `prefix`: what follows.
pub open spec fn first_with(parts: Seq<Seq<char>>, prefix: Seq<char>) -> Option<Seq<char>>
    decreases parts.len(),
{
    if parts.len() == 0 {
        None
    } else {
        match text::past_prefix(text::trimmed(parts[0]), prefix) {
            Some(v) => Some(v),
            None => first_with(parts.skip(1), prefix),
        }
    }
}

/// The value of a parameter: parameters stand as `key=value` with commas between them.
pub open spec fn param_of(params: Seq<char>, key: Seq<char>) -> Option<Seq<char>> {
    first_with(text::pieces(params, ","@), key + "="@)
}

/// The name in the parameters of a command.
pub open spec fn name_of(params: Option<Seq<char>>) -> Option<Seq<char>> {
    match params {
        Some(p) => param_of(p, "name"@),
        None => None,
    }
}

/// The command with the given name, parameters and message.
pub open spec fn command_of(name: Seq<char>, params: Option<Seq<char>>, message: Seq<char>) -> Option<
    CommandV,
> {
    if name == "set-output"@ {
        match name_of(params) {
            Some(n) => Some(CommandV::SetOutput(n, message)),
            None => None,
        }
    } else if name == "set-env"@ {
        match name_of(params) {
            Some(n) => Some(CommandV::SetEnv(n, message)),
            None => None,
        }
    } else if name == "save-state"@ {
        match name_of(params) {
            Some(n) => Some(CommandV::SaveState(n, message)),
            None => None,
        }
    } else if name == "add-path"@ {
        Some(CommandV::AddPath(message))
    } else if name == "add-mask"@ {
        Some(CommandV::AddMask(message))
    } else if name == "debug"@ {
        Some(CommandV::Debug(message))
    } else if name == "warning"@ {
        Some(CommandV::Warning(message))
    } else if name == "error"@ {
        Some(CommandV::Error(message))
    } else if name == "group"@ {
        Some(CommandV::Group(message))
    } else if name == "endgroup"@ {
        Some(CommandV::EndGroup)
    } else {
        None
    }
}

/// The command in a line: `::command-name param=value::message`.
pub open spec fn command_in(line: Seq<char>) -> Option<CommandV> {
    match text::past_prefix(unended(line), "::"@) {
        Some(rest) => match text::parted(rest, "::"@) {
            Some((head, message)) => match text::parted(head, " "@) {
                Some((name, params)) => command_of(name, Some(params), message),
                None => command_of(head, None, message),
            },
            None => None,
        },
        None => None,
    }
}

pub open spec fn opt_command(c: Option<WorkflowCommand>) -> Option<CommandV> {
    match c {
        Some(x) => Some(x@),
        None => None,
    }
}

fn trim_line_end(line: &str) -> (r: String)
    ensures
        r@ == unended(line@),
{
    let v = text::chars(line);
    let mut n: usize = v.len();
    assert(line@.subrange(0, n as int) =~= line@);
    while n > 0 && (v[n - 1] == '\r' || v[n - 1] == '\n')
        invariant
            v@ == line@,
            n <= v@.len(),
            unended(line@) == unended(line@.subrange(0, n as int)),
        decreases n,
    {
        assert(line@.subrange(0, n as int).drop_last() =~= line@.subrange(0, n - 1));
        n = n - 1;
    }
    text::cut(v.as_slice(), 0, n)
}

fn extract_param(params: &str, key: &str) -> (r: Option<String>)
    ensures
        text::opt(r) == param_of(params@, key@),
{
    let prefix = text::cat(key, "=");
    let parts = text::split(params, ",");
    let ghost all = text::texts(parts@);
    let mut i: usize = 0;
    assert(all.skip(0) =~= all);
    while i < parts.len()
        invariant
            i <= parts@.len(),
            all == text::texts(parts@),
            prefix@ == key@ + "="@,
            all == text::pieces(params@, ","@),
            first_with(all, prefix@) == first_with(all.skip(i as int), prefix@),
        decreases parts@.len() - i,
    {
        let part = text::trim(parts[i].as_str());
        assert(all.skip(i as int)[0] == parts@[i as int]@);
        if let Some(v) = text::strip_prefix(part.as_str(), prefix.as_str()) {
            return Some(v);
        }
        assert(all.skip(i as int).skip(1) =~= all.skip(i + 1));
        i = i + 1;
    }
    None
}

fn make_command(name: &str, params: Option<String>, message: String) -> (r: Option<WorkflowCommand>)
    ensures
        opt_command(r) == command_of(name@, text::opt(params), message@),
{
    if text::same(name, "set-output") || text::same(name, "set-env") || text::same(
        name,
        "save-state",
    ) {
        let params = match params {
            Some(p) => p,
            None => {
                return None;
            },
        };
        let n = match extract_param(params.as_str(), "name") {
            Some(n) => n,
            None => {
                return None;
            },
        };
        if text::same(name, "set-output") {
            Some(WorkflowCommand::SetOutput { name: n, value: message })
        } else if text::same(name, "set-env") {
            Some(WorkflowCommand::SetEnv { name: n, value: message })
        } else {
            Some(WorkflowCommand::SaveState { name: n, value: message })
        }
    } else if text::same(name, "add-path") {
        Some(WorkflowCommand::AddPath(message))
    } else if text::same(name, "add-mask") {
        Some(WorkflowCommand::AddMask(message))
    } else if text::same(name, "debug") {
        Some(WorkflowCommand::Debug(message))
    } else if text::same(name, "warning") {
        Some(WorkflowCommand::Warning(message))
    } else if text::same(name, "error") {
        Some(WorkflowCommand::Error(message))
    } else if text::same(name, "group") {
        Some(WorkflowCommand::Group(message))
    } else if text::same(name, "endgroup") {
        Some(WorkflowCommand::EndGroup)
    } else {
        None
    }
}

/// Parse a workflow command from a line of stdout.
/// Format: `::command-name param=value::message`
pub fn parse_command(line: &str) -> (r: Option<WorkflowCommand>)
    ensures
        opt_command(r) == command_in(line@),
{
    let line = trim_line_end(line);
    let rest = match text::strip_prefix(line.as_str(), "::") {
        Some(r) => r,
        None => {
            return None;
        },
    };
    let (head, message) = match text::split_once(rest.as_str(), "::") {
        Some(x) => x,
        None => {
            return None;
        },
    };
    match text::split_once(head.as_str(), " ") {
        Some((name, params)) => make_command(name.as_str(), Some(params), message),
        None => make_command(head.as_str(), None, message),
    }
}

/// A line that does not begin with `::` holds no command.
pub proof fn law_plain_line(line: Seq<char>)
    requires
        !text::begins(line, "::"@),
    ensures
        command_in(line) is None,
{
    lemma_unended(line);
    let u = unended(line);
    if text::begins(u, "::"@) {
        assert(line.subrange(0, "::"@.len() as int) =~= u.subrange(0, "::"@.len() as int));
    }
}

proof fn lemma_unended(s: Seq<char>)
    ensures
        unended(s).len() <= s.len(),
        unended(s) == s.take(unended(s).len() as int),
    decreases s.len(),
{
    if s.len() > 0 && (s.last() == '\r' || s.last() == '\n') {
        lemma_unended(s.drop_last());
        let n = unended(s).len() as int;
        assert(s.take(n) =~= s.drop_last().take(n));
    } else {
        assert(s.take(s.len() as int) =~= s);
    }
}

proof fn lemma_named_command(command: Seq<char>, n: Seq<char>, v: Seq<char>)
    requires
        forall|i: int| 0 <= i < command.len() ==> #[trigger] command[i] != ':' && command[i] != ' ',
        !n.contains(':'),
        !n.contains(','),
        text::trimmed("name="@ + n) == "name="@ + n,
        unended(v) == v,
    ensures
        command_in("::"@ + command + " name="@ + n + "::"@ + v) == command_of(
            command,
            Some("name="@ + n),
            v,
        ),
        name_of(Some("name="@ + n)) == Some(n),
{
    reveal_strlit("::");
    reveal_strlit(" ");
    reveal_strlit(",");
    reveal_strlit("=");
    reveal_strlit("name");
    reveal_strlit("name=");
    reveal_strlit(" name=");
    let head = command + " name="@ + n;
    let rest = head + "::"@ + v;
    let s = "::"@ + command + " name="@ + n + "::"@ + v;
    assert(s =~= "::"@ + rest);
    assert(unended(s) == s) by {
        if v.len() > 0 {
            assert(s.last() == v.last());
            if v.last() == '\r' || v.last() == '\n' {
                lemma_unended(v.drop_last());
            }
        } else {
            assert(s.last() == ':');
        }
    }
    assert(s.subrange(0, 2) =~= "::"@);
    assert(text::after(s, 2) =~= rest);
    assert forall|i: int| 0 <= i < head.len() implies !"::"@.contains(#[trigger] head[i]) by {
        if i < command.len() {
            assert(head[i] == command[i]);
        } else if i < command.len() + 6 {
            assert(head[i] == " name="@[i - command.len()]);
        } else {
            assert(head[i] == n[i - command.len() - 6]);
            assert(n.contains(head[i]));
        }
    }
    text::lemma_parted_after(head, "::"@, v);
    assert(head =~= command + " "@ + ("name="@ + n));
    assert forall|i: int| 0 <= i < command.len() implies !" "@.contains(#[trigger] command[i]) by {}
    text::lemma_parted_after(command, " "@, "name="@ + n);
    let params = "name="@ + n;
    assert(!params.contains(',')) by {
        if params.contains(',') {
            let k = choose|k: int| 0 <= k < params.len() && params[k] == ',';
            if k >= 5 {
                assert(n[k - 5] == ',');
                assert(n.contains(','));
            }
        }
    }
    assert(","@.contains(',')) by {
        assert(","@[0] == ',');
    }
    text::lemma_absent(params, ","@, ',');
    assert(text::pieces(params, ","@) =~= seq![params]);
    assert("name"@ + "="@ =~= "name="@);
    assert(params.subrange(0, 5) =~= "name="@);
    assert(text::after(params, 5) =~= n);
}

/// A command with a name is read as it was written: the name between `name=` and `::`, and everything
/// behind that as the value. The name holds no colon, no comma and no white space at its end; the value
/// does not end with a line end.
pub proof fn law_named_commands_are_read_back(n: Seq<char>, v: Seq<char>)
    requires
        !n.contains(':'),
        !n.contains(','),
        text::trimmed("name="@ + n) == "name="@ + n,
        unended(v) == v,
    ensures
        command_in("::"@ + "set-output"@ + " name="@ + n + "::"@ + v) == Some(
            CommandV::SetOutput(n, v),
        ),
        command_in("::"@ + "set-env"@ + " name="@ + n + "::"@ + v) == Some(CommandV::SetEnv(n, v)),
        command_in("::"@ + "save-state"@ + " name="@ + n + "::"@ + v) == Some(
            CommandV::SaveState(n, v),
        ),
{
    reveal_strlit("set-output");
    reveal_strlit("set-env");
    reveal_strlit("save-state");
    lemma_named_command("set-output"@, n, v);
    lemma_named_command("set-env"@, n, v);
    lemma_named_command("save-state"@, n, v);
    assert("set-output"@[1] != "save-state"@[1]);
    assert("set-env"@.len() != "set-output"@.len());
}

} // verus!

//! The `billow-cli` command line: which request the arguments ask for, and
//! how a workload is printed.

use vstd::prelude::*;
use crate::text::{decimal, i64_text, signed_decimal, u64_text, views};
use crate::workload::{
    actual_name, desired_name, kind_name, str_eq, ActualState, DesiredState, WorkloadKind,
};

verus! {

/// A request to the agent.
pub enum WorkloadCommand {
    Submit { kind: WorkloadKind, image: String },
    Get { workload_id: String },
    Logs { workload_id: String },
    Start { workload_id: String },
    Stop { workload_id: String },
    Delete { workload_id: String },
}

/// What the command line asks for.
pub enum Command {
    Echo { message: String },
    Workload(WorkloadCommand),
}

pub ghost enum WorkloadRequest {
    Submit { kind: WorkloadKind, image: Seq<char> },
    Get(Seq<char>),
    Logs(Seq<char>),
    Start(Seq<char>),
    Stop(Seq<char>),
    Delete(Seq<char>),
}

pub ghost enum CliRequest {
    Echo(Seq<char>),
    Workload(WorkloadRequest),
}

pub open spec fn workload_request(c: WorkloadCommand) -> WorkloadRequest {
    match c {
        WorkloadCommand::Submit { kind, image } => WorkloadRequest::Submit { kind, image: image@ },
        WorkloadCommand::Get { workload_id } => WorkloadRequest::Get(workload_id@),
        WorkloadCommand::Logs { workload_id } => WorkloadRequest::Logs(workload_id@),
        WorkloadCommand::Start { workload_id } => WorkloadRequest::Start(workload_id@),
        WorkloadCommand::Stop { workload_id } => WorkloadRequest::Stop(workload_id@),
        WorkloadCommand::Delete { workload_id } => WorkloadRequest::Delete(workload_id@),
    }
}

pub open spec fn workload_result(r: Result<WorkloadCommand, String>) -> Result<
    WorkloadRequest,
    Seq<char>,
> {
    match r {
        Ok(c) => Ok(workload_request(c)),
        Err(e) => Err(e@),
    }
}

pub open spec fn command_result(r: Result<Command, String>) -> Result<CliRequest, Seq<char>> {
    match r {
        Ok(Command::Echo { message }) => Ok(CliRequest::Echo(message@)),
        Ok(Command::Workload(w)) => Ok(CliRequest::Workload(workload_request(w))),
        Err(e) => Err(e@),
    }
}

pub open spec fn arg_at(args: Seq<Seq<char>>, i: int) -> Option<Seq<char>> {
    if 0 <= i < args.len() {
        Some(args[i])
    } else {
        None
    }
}

/// Nothing may follow the arguments a command takes: the first argument at
/// `from` or later is refused.
pub open spec fn extra_args(args: Seq<Seq<char>>, from: int) -> Result<(), Seq<char>> {
    match arg_at(args, from) {
        Some(a) => Err("unexpected argument '"@ + a + "'"@),
        None => Ok(()),
    }
}

pub open spec fn kind_requested(kind: Option<Seq<char>>) -> Result<WorkloadKind, Seq<char>> {
    match kind {
        Some(k) => if k == "once"@ {
            Ok(WorkloadKind::Once)
        } else if k == "service"@ {
            Ok(WorkloadKind::Service)
        } else {
            Err("unknown workload kind '"@ + k + "', expected once or service"@)
        },
        None => Err("expected a workload kind: once or service"@),
    }
}

pub open spec fn id_requested(args: Seq<Seq<char>>, command: Seq<char>) -> Result<
    Seq<char>,
    Seq<char>,
> {
    match arg_at(args, 1) {
        Some(id) => Ok(id),
        None => Err("expected a workload id, e.g. billow-cli workload "@ + command + " <id>"@),
    }
}

/// A command that takes one workload id.
pub open spec fn id_command(
    args: Seq<Seq<char>>,
    command: Seq<char>,
    make: spec_fn(Seq<char>) -> WorkloadRequest,
) -> Result<WorkloadRequest, Seq<char>> {
    match id_requested(args, command) {
        Err(e) => Err(e),
        Ok(id) => match extra_args(args, 2) {
            Err(e) => Err(e),
            Ok(()) => Ok(make(id)),
        },
    }
}

/// The request that the arguments after `workload` make.
pub open spec fn workload_requested(args: Seq<Seq<char>>) -> Result<WorkloadRequest, Seq<char>> {
    match arg_at(args, 0) {
        None => Err(
            "expected a workload subcommand: submit, get, logs, start, stop, or delete"@,
        ),
        Some(c) => if c == "submit"@ {
            match kind_requested(arg_at(args, 1)) {
                Err(e) => Err(e),
                Ok(kind) => match arg_at(args, 2) {
                    None => Err(
                        "expected an image, e.g. billow-cli workload submit once hello-world"@,
                    ),
                    Some(image) => match extra_args(args, 3) {
                        Err(e) => Err(e),
                        Ok(()) => Ok(WorkloadRequest::Submit { kind, image }),
                    },
                },
            }
        } else if c == "get"@ {
            id_command(args, c, |id: Seq<char>| WorkloadRequest::Get(id))
        } else if c == "logs"@ {
            id_command(args, c, |id: Seq<char>| WorkloadRequest::Logs(id))
        } else if c == "start"@ {
            id_command(args, c, |id: Seq<char>| WorkloadRequest::Start(id))
        } else if c == "stop"@ {
            id_command(args, c, |id: Seq<char>| WorkloadRequest::Stop(id))
        } else if c == "delete"@ {
            id_command(args, c, |id: Seq<char>| WorkloadRequest::Delete(id))
        } else {
            Err("unknown workload subcommand '"@ + c + "'"@)
        },
    }
}

/// Each workload subcommand asks for the operation of the same name: `get`,
/// `logs`, `start`, `stop` and `delete` on the id that follows, `submit` of
/// the image that follows the kind.
pub proof fn lemma_workload_subcommands(id: Seq<char>, image: Seq<char>)
    ensures
        workload_requested(seq!["get"@, id]) == Ok::<WorkloadRequest, Seq<char>>(
            WorkloadRequest::Get(id),
        ),
        workload_requested(seq!["logs"@, id]) == Ok::<WorkloadRequest, Seq<char>>(
            WorkloadRequest::Logs(id),
        ),
        workload_requested(seq!["start"@, id]) == Ok::<WorkloadRequest, Seq<char>>(
            WorkloadRequest::Start(id),
        ),
        workload_requested(seq!["stop"@, id]) == Ok::<WorkloadRequest, Seq<char>>(
            WorkloadRequest::Stop(id),
        ),
        workload_requested(seq!["delete"@, id]) == Ok::<WorkloadRequest, Seq<char>>(
            WorkloadRequest::Delete(id),
        ),
        workload_requested(seq!["submit"@, "once"@, image]) == Ok::<WorkloadRequest, Seq<char>>(
            WorkloadRequest::Submit { kind: WorkloadKind::Once, image },
        ),
        workload_requested(seq!["submit"@, "service"@, image]) == Ok::<
            WorkloadRequest,
            Seq<char>,
        >(WorkloadRequest::Submit { kind: WorkloadKind::Service, image }),
{
    reveal_strlit("submit");
    reveal_strlit("get");
    reveal_strlit("logs");
    reveal_strlit("start");
    reveal_strlit("stop");
    reveal_strlit("delete");
    reveal_strlit("once");
    reveal_strlit("service");
    assert("logs"@.len() == 4 && "submit"@.len() == 6 && "get"@.len() == 3 && "start"@.len() == 5);
    assert("logs"@ != "submit"@ && "logs"@ != "get"@);
    assert("start"@ != "submit"@ && "start"@ != "get"@ && "start"@ != "logs"@);
    assert("stop"@ != "submit"@ && "stop"@ != "get"@ && "stop"@ != "logs"@ && "stop"@
        != "start"@) by {
        assert("stop"@[0] != "logs"@[0]);
        assert("stop"@.len() != "start"@.len());
    }
    assert("delete"@ != "submit"@ && "delete"@ != "get"@ && "delete"@ != "logs"@ && "delete"@
        != "start"@ && "delete"@ != "stop"@) by {
        assert("delete"@[0] != "submit"@[0]);
    }
    assert("get"@ != "submit"@);
    assert("service"@ != "once"@);
}

/// `workload` followed by arguments asks for what those arguments ask of
/// the workload service; `echo` echoes its message.
pub proof fn lemma_cli_commands(args: Seq<Seq<char>>, message: Seq<char>)
    ensures
        cli_requested(seq!["workload"@] + args) == match workload_requested(args) {
            Ok(w) => Ok::<CliRequest, Seq<char>>(CliRequest::Workload(w)),
            Err(e) => Err(e),
        },
        cli_requested(seq!["echo"@, message]) == Ok::<CliRequest, Seq<char>>(
            CliRequest::Echo(message),
        ),
{
    reveal_strlit("echo");
    reveal_strlit("workload");
    assert("workload"@.len() == 8 && "echo"@.len() == 4);
    assert("workload"@ != "echo"@);
    assert((seq!["workload"@] + args).skip(1) =~= args);
    assert((seq!["workload"@] + args)[0] == "workload"@);
}

/// The request that the arguments after the program name make.
pub open spec fn cli_requested(args: Seq<Seq<char>>) -> Result<CliRequest, Seq<char>> {
    match arg_at(args, 0) {
        None => Err("expected a subcommand: echo or workload"@),
        Some(c) => if c == "echo"@ {
            match arg_at(args, 1) {
                None => Err("expected a message, e.g. billow-cli echo \"my text\""@),
                Some(m) => match extra_args(args, 2) {
                    Err(e) => Err(e),
                    Ok(()) => Ok(CliRequest::Echo(m)),
                },
            }
        } else if c == "workload"@ {
            match workload_requested(args.skip(1)) {
                Err(e) => Err(e),
                Ok(w) => Ok(CliRequest::Workload(w)),
            }
        } else {
            Err("unknown subcommand '"@ + c + "'"@)
        },
    }
}

/// The message of a usage error.
pub fn usage_error(message: &str) -> (e: String)
    ensures
        e@ == message@,
{
    String::from_str(message)
}

/// Refuses any argument at `from` or later.
pub fn reject_extra_args(args: &Vec<String>, from: usize) -> (r: Result<(), String>)
    ensures
        match r {
            Ok(()) => extra_args(views(args@), from as int) is Ok,
            Err(e) => extra_args(views(args@), from as int) == Err::<(), Seq<char>>(e@),
        },
{
    if from < args.len() {
        let mut e = String::from_str("unexpected argument '");
        e.append(args[from].as_str());
        e.append("'");
        Err(e)
    } else {
        Ok(())
    }
}

/// The kind of a submitted workload.
pub fn parse_workload_kind(kind: Option<&str>) -> (r: Result<WorkloadKind, String>)
    ensures
        match r {
            Ok(k) => kind_requested(
                match kind {
                    Some(s) => Some(s@),
                    None => None,
                },
            ) == Ok::<WorkloadKind, Seq<char>>(k),
            Err(e) => kind_requested(
                match kind {
                    Some(s) => Some(s@),
                    None => None,
                },
            ) == Err::<WorkloadKind, Seq<char>>(e@),
        },
{
    match kind {
        Some(k) => if str_eq(k, "once") {
            Ok(WorkloadKind::Once)
        } else if str_eq(k, "service") {
            Ok(WorkloadKind::Service)
        } else {
            let mut e = String::from_str("unknown workload kind '");
            e.append(k);
            e.append("', expected once or service");
            Err(e)
        },
        None => Err(String::from_str("expected a workload kind: once or service")),
    }
}

/// The workload id that `command` takes, the argument after it.
pub fn next_workload_id(args: &Vec<String>, command: &str) -> (r: Result<String, String>)
    ensures
        match r {
            Ok(id) => id_requested(views(args@), command@) == Ok::<Seq<char>, Seq<char>>(id@),
            Err(e) => id_requested(views(args@), command@) == Err::<Seq<char>, Seq<char>>(e@),
        },
{
    if 1 < args.len() {
        Ok(args[1].clone())
    } else {
        let mut e = String::from_str("expected a workload id, e.g. billow-cli workload ");
        e.append(command);
        e.append(" <id>");
        Err(e)
    }
}

fn id_command_exec(args: &Vec<String>, command: &str) -> (r: Result<String, String>)
    ensures
        match r {
            Ok(id) => id_requested(views(args@), command@) == Ok::<Seq<char>, Seq<char>>(id@)
                && extra_args(views(args@), 2) is Ok,
            Err(e) => match id_requested(views(args@), command@) {
                Err(e2) => e@ == e2,
                Ok(_) => extra_args(views(args@), 2) == Err::<(), Seq<char>>(e@),
            },
        },
{
    let id = match next_workload_id(args, command) {
        Ok(id) => id,
        Err(e) => return Err(e),
    };
    match reject_extra_args(args, 2) {
        Ok(()) => Ok(id),
        Err(e) => Err(e),
    }
}

/// Reads the arguments after `workload`.
pub fn parse_workload_command(args: &Vec<String>) -> (r: Result<WorkloadCommand, String>)
    ensures
        workload_result(r) == workload_requested(views(args@)),
{
    if args.len() == 0 {
        return Err(
            String::from_str(
                "expected a workload subcommand: submit, get, logs, start, stop, or delete",
            ),
        );
    }
    let c = args[0].as_str();
    if str_eq(c, "submit") {
        let kind_arg = if 1 < args.len() {
            Some(args[1].as_str())
        } else {
            None
        };
        let kind = match parse_workload_kind(kind_arg) {
            Ok(k) => k,
            Err(e) => return Err(e),
        };
        if args.len() <= 2 {
            return Err(
                String::from_str(
                    "expected an image, e.g. billow-cli workload submit once hello-world",
                ),
            );
        }
        let image = args[2].clone();
        match reject_extra_args(args, 3) {
            Ok(()) => Ok(WorkloadCommand::Submit { kind, image }),
            Err(e) => Err(e),
        }
    } else if str_eq(c, "get") {
        match id_command_exec(args, c) {
            Ok(workload_id) => Ok(WorkloadCommand::Get { workload_id }),
            Err(e) => Err(e),
        }
    } else if str_eq(c, "logs") {
        match id_command_exec(args, c) {
            Ok(workload_id) => Ok(WorkloadCommand::Logs { workload_id }),
            Err(e) => Err(e),
        }
    } else if str_eq(c, "start") {
        match id_command_exec(args, c) {
            Ok(workload_id) => Ok(WorkloadCommand::Start { workload_id }),
            Err(e) => Err(e),
        }
    } else if str_eq(c, "stop") {
        match id_command_exec(args, c) {
            Ok(workload_id) => Ok(WorkloadCommand::Stop { workload_id }),
            Err(e) => Err(e),
        }
    } else if str_eq(c, "delete") {
        match id_command_exec(args, c) {
            Ok(workload_id) => Ok(WorkloadCommand::Delete { workload_id }),
            Err(e) => Err(e),
        }
    } else {
        let mut e = String::from_str("unknown workload subcommand '");
        e.append(c);
        e.append("'");
        Err(e)
    }
}


fn tail_args(args: &Vec<String>, from: usize) -> (r: Vec<String>)
    requires
        from <= args.len(),
    ensures
        views(r@) == views(args@).skip(from as int),
{
    let mut r: Vec<String> = Vec::new();
    let mut i: usize = from;
    while i < args.len()
        invariant
            from <= i <= args@.len(),
            views(r@) == views(args@).subrange(from as int, i as int),
        decreases args.len() - i,
    {
        r.push(args[i].clone());
        proof {
            assert(views(args@).subrange(from as int, i + 1) =~= views(args@).subrange(
                from as int,
                i as int,
            ).push(args@[i as int]@));
            assert(views(r@) =~= views(args@).subrange(from as int, i + 1));
        }
        i = i + 1;
    }
    assert(views(args@).subrange(from as int, args@.len() as int) =~= views(args@).skip(
        from as int,
    ));
    r
}

/// Reads the arguments after the program name.
pub fn parse_command(args: &Vec<String>) -> (r: Result<Command, String>)
    ensures
        command_result(r) == cli_requested(views(args@)),
{
    if args.len() == 0 {
        return Err(String::from_str("expected a subcommand: echo or workload"));
    }
    let c = args[0].as_str();
    if str_eq(c, "echo") {
        if args.len() < 2 {
            return Err(String::from_str("expected a message, e.g. billow-cli echo \"my text\""));
        }
        let message = args[1].clone();
        match reject_extra_args(args, 2) {
            Ok(()) => Ok(Command::Echo { message }),
            Err(e) => Err(e),
        }
    } else if str_eq(c, "workload") {
        let rest = tail_args(args, 1);
        match parse_workload_command(&rest) {
            Ok(w) => Ok(Command::Workload(w)),
            Err(e) => Err(e),
        }
    } else {
        let mut e = String::from_str("unknown subcommand '");
        e.append(c);
        e.append("'");
        Err(e)
    }
}

/// A workload as the agent reports it; a kind or state the CLI does not
/// know is `None`.
pub struct WorkloadResponse {
    pub workload_id: String,
    pub kind: Option<WorkloadKind>,
    pub image: String,
    pub desired_state: Option<DesiredState>,
    pub actual_state: Option<ActualState>,
    pub runtime_task_id: String,
    pub container_ip: String,
    pub exit_code: Option<u32>,
    pub error: String,
    pub created_at_unix_secs: i64,
    pub updated_at_unix_secs: i64,
}

pub open spec fn or_unspecified(name: Option<Seq<char>>) -> Seq<char> {
    match name {
        Some(n) => n,
        None => "unspecified"@,
    }
}

pub open spec fn kind_text(k: Option<WorkloadKind>) -> Seq<char> {
    or_unspecified(
        match k {
            Some(k) => Some(kind_name(k)),
            None => None,
        },
    )
}

pub open spec fn desired_text(d: Option<DesiredState>) -> Seq<char> {
    or_unspecified(
        match d {
            Some(d) => Some(desired_name(d)),
            None => None,
        },
    )
}

pub open spec fn actual_text(a: Option<ActualState>) -> Seq<char> {
    or_unspecified(
        match a {
            Some(a) => Some(actual_name(a)),
            None => None,
        },
    )
}

/// The lines `print_workload` writes, one `field=value` per line, in a fixed
/// order.
pub open spec fn workload_lines(w: WorkloadResponse) -> Seq<char> {
    "workload_id="@ + w.workload_id@ + "\nkind="@ + kind_text(w.kind) + "\nimage="@ + w.image@
        + "\ndesired_state="@ + desired_text(w.desired_state) + "\nactual_state="@ + actual_text(
        w.actual_state,
    ) + "\nruntime_task_id="@ + w.runtime_task_id@ + "\ncontainer_ip="@ + w.container_ip@
        + "\nexit_code="@ + match w.exit_code {
        Some(c) => decimal(c as nat),
        None => Seq::empty(),
    } + "\nerror="@ + w.error@ + "\ncreated_at_unix_secs="@ + signed_decimal(
        w.created_at_unix_secs as int,
    ) + "\nupdated_at_unix_secs="@ + signed_decimal(w.updated_at_unix_secs as int) + "\n"@
}

/// The text `billow-cli` prints for a workload.
pub fn print_workload(w: &WorkloadResponse) -> (out: String)
    ensures
        out@ == workload_lines(*w),
{
    let mut out = String::from_str("workload_id=");
    out.append(w.workload_id.as_str());
    out.append("\nkind=");
    match w.kind {
        Some(k) => out.append(k.as_str()),
        None => out.append("unspecified"),
    }
    out.append("\nimage=");
    out.append(w.image.as_str());
    out.append("\ndesired_state=");
    match w.desired_state {
        Some(d) => out.append(d.as_str()),
        None => out.append("unspecified"),
    }
    out.append("\nactual_state=");
    match w.actual_state {
        Some(a) => out.append(a.as_str()),
        None => out.append("unspecified"),
    }
    out.append("\nruntime_task_id=");
    out.append(w.runtime_task_id.as_str());
    out.append("\ncontainer_ip=");
    out.append(w.container_ip.as_str());
    out.append("\nexit_code=");
    match w.exit_code {
        Some(c) => {
            let t = u64_text(c as u64);
            out.append(t.as_str());
        },
        None => {},
    }
    out.append("\nerror=");
    out.append(w.error.as_str());
    out.append("\ncreated_at_unix_secs=");
    let t = i64_text(w.created_at_unix_secs);
    out.append(t.as_str());
    out.append("\nupdated_at_unix_secs=");
    let t = i64_text(w.updated_at_unix_secs);
    out.append(t.as_str());
    out.append("\n");
    out
}

} // verus!

//! The VM pool's line protocol: the commands a client sends over the Unix
//! socket, the replies the daemon writes back, and the pool's command line.

use vstd::prelude::*;
use crate::text::{
    chars_of, decimal, is_space, is_space_char, lemma_decimal_value, lemma_trim_start_skip,
    parse_unsigned,
    parsed_unsigned, slice_chars, string_of, trim_start, u64_text, views, debug_quoted, debug_text,
};
use crate::seqs::{first_where, lemma_first_where, lemma_first_where_is};
use crate::workload::str_eq;

verus! {

pub open spec fn spaces() -> spec_fn(char) -> bool {
    |c: char| is_space(c)
}

/// The first whitespace-separated word of `s` (empty where there is none).
pub open spec fn first_word(s: Seq<char>) -> Seq<char> {
    let t = trim_start(s);
    t.take(first_where(t, spaces()))
}

/// What follows the first word of `s`.
pub open spec fn after_first_word(s: Seq<char>) -> Seq<char> {
    let t = trim_start(s);
    t.skip(first_where(t, spaces()))
}

/// The first word of `v` and what follows it.
pub fn next_word(v: &[char]) -> (r: (Vec<char>, Vec<char>))
    ensures
        r.0@ == first_word(v@),
        r.1@ == after_first_word(v@),
{
    let mut lo: usize = 0;
    while lo < v.len() && is_space_char(v[lo])
        invariant
            lo <= v@.len(),
            forall|j: int| 0 <= j < lo ==> is_space(v@[j]),
        decreases v.len() - lo,
    {
        lo = lo + 1;
    }
    let ghost t = v@.skip(lo as int);
    proof {
        lemma_trim_start_skip(v@, lo as int);
        if t.len() > 0 {
            assert(t[0] == v@[lo as int]);
        }
        assert(trim_start(t) == t);
    }
    let mut hi: usize = lo;
    while hi < v.len() && !is_space_char(v[hi])
        invariant
            lo <= hi <= v@.len(),
            t == v@.skip(lo as int),
            forall|j: int| 0 <= j < hi - lo ==> !spaces()(#[trigger] t[j]),
        decreases v.len() - hi,
    {
        assert(t[hi - lo] == v@[hi as int]);
        hi = hi + 1;
    }
    proof {
        if hi < v.len() {
            assert(t[hi - lo] == v@[hi as int]);
        }
        lemma_first_where_is(t, spaces(), hi - lo);
        assert(t.take(hi - lo) =~= v@.subrange(lo as int, hi as int));
        assert(t.skip(hi - lo) =~= v@.subrange(hi as int, v@.len() as int));
    }
    (slice_chars(v, lo, hi), slice_chars(v, hi, v.len()))
}

/// A request to the pool daemon.
pub enum PoolCommand {
    Take,
    Drop(String),
    Stop,
    Status,
    /// Wait up to this many seconds for a ready VM.
    WaitReady(u64),
    Ping,
}

/// Seconds `wait-ready` waits where no usable timeout is given.
pub const DEFAULT_WAIT_READY_SECS: u64 = 600;

/// The timeout of `wait-ready`: its argument where that is a `u64`, else
/// the default.
pub open spec fn wait_secs(arg: Seq<char>) -> u64 {
    match parsed_unsigned(arg, u64::MAX as nat) {
        Some(n) => n as u64,
        None => DEFAULT_WAIT_READY_SECS,
    }
}

pub open spec fn unknown_command_message(word: Seq<char>) -> Seq<char> {
    "unknown command '"@ + word + "'"@
}

/// A request as the daemon reads it.
pub ghost enum PoolRequest {
    Take,
    Drop(Seq<char>),
    Stop,
    Status,
    WaitReady(u64),
    Ping,
}

pub open spec fn request_view(c: PoolCommand) -> PoolRequest {
    match c {
        PoolCommand::Take => PoolRequest::Take,
        PoolCommand::Drop(n) => PoolRequest::Drop(n@),
        PoolCommand::Stop => PoolRequest::Stop,
        PoolCommand::Status => PoolRequest::Status,
        PoolCommand::WaitReady(t) => PoolRequest::WaitReady(t),
        PoolCommand::Ping => PoolRequest::Ping,
    }
}

/// The request a line makes: its first word names the command and the
/// second is the argument of `drop` and `wait-ready`.
pub open spec fn requested(line: Seq<char>) -> Result<PoolRequest, Seq<char>> {
    let w = first_word(line);
    let a = first_word(after_first_word(line));
    if w.len() == 0 {
        Err("empty command"@)
    } else if w == "take"@ {
        Ok(PoolRequest::Take)
    } else if w == "drop"@ {
        if a.len() == 0 {
            Err("usage: drop <vm>"@)
        } else {
            Ok(PoolRequest::Drop(a))
        }
    } else if w == "stop"@ {
        Ok(PoolRequest::Stop)
    } else if w == "status"@ {
        Ok(PoolRequest::Status)
    } else if w == "wait-ready"@ {
        Ok(PoolRequest::WaitReady(wait_secs(a)))
    } else if w == "ping"@ {
        Ok(PoolRequest::Ping)
    } else {
        Err(unknown_command_message(w))
    }
}

pub open spec fn command_result_view(r: Result<PoolCommand, String>) -> Result<
    PoolRequest,
    Seq<char>,
> {
    match r {
        Ok(c) => Ok(request_view(c)),
        Err(e) => Err(e@),
    }
}

/// Reads one request line.
pub fn dispatch_command(line: &str) -> (r: Result<PoolCommand, String>)
    ensures
        command_result_view(r) == requested(line@),
{
    let chars = chars_of(line);
    let (w, rest) = next_word(&chars);
    let (a, _) = next_word(&rest);
    if w.len() == 0 {
        return Err(String::from_str("empty command"));
    }
    let word = string_of(&w);
    if str_eq(word.as_str(), "take") {
        Ok(PoolCommand::Take)
    } else if str_eq(word.as_str(), "drop") {
        if a.len() == 0 {
            Err(String::from_str("usage: drop <vm>"))
        } else {
            Ok(PoolCommand::Drop(string_of(&a)))
        }
    } else if str_eq(word.as_str(), "stop") {
        Ok(PoolCommand::Stop)
    } else if str_eq(word.as_str(), "status") {
        Ok(PoolCommand::Status)
    } else if str_eq(word.as_str(), "wait-ready") {
        let secs = match parse_unsigned(&a, u64::MAX) {
            Some(n) => n,
            None => DEFAULT_WAIT_READY_SECS,
        };
        Ok(PoolCommand::WaitReady(secs))
    } else if str_eq(word.as_str(), "ping") {
        Ok(PoolCommand::Ping)
    } else {
        let mut e = String::from_str("unknown command '");
        e.append(word.as_str());
        e.append("'");
        Err(e)
    }
}

/// The reply line the daemon writes for the outcome of a request.
pub open spec fn framed(result: Result<Seq<char>, Seq<char>>) -> Seq<char> {
    match result {
        Ok(s) => if s.len() == 0 {
            "OK\n"@
        } else {
            "OK "@ + s + "\n"@
        },
        Err(e) => "ERR "@ + e + "\n"@,
    }
}

pub open spec fn result_view(r: Result<String, String>) -> Result<Seq<char>, Seq<char>> {
    match r {
        Ok(s) => Ok(s@),
        Err(e) => Err(e@),
    }
}

/// `OK`, `OK <response>` or `ERR <error>`, ended by a newline.
pub fn frame_response(result: &Result<String, String>) -> (line: String)
    ensures
        line@ == framed(result_view(*result)),
{
    match result {
        Ok(s) => if s.unicode_len() == 0 {
            String::from_str("OK\n")
        } else {
            let mut line = String::from_str("OK ");
            line.append(s.as_str());
            line.append("\n");
            line
        },
        Err(e) => {
            let mut line = String::from_str("ERR ");
            line.append(e.as_str());
            line.append("\n");
            line
        },
    }
}

/// `s` without its trailing newlines (`trim_end_matches('\n')`).
pub open spec fn trim_newlines(s: Seq<char>) -> Seq<char>
    decreases s.len(),
{
    if s.len() > 0 && s.last() == '\n' {
        trim_newlines(s.drop_last())
    } else {
        s
    }
}

/// The text of a reply without its prefix `p`, where it has it.
pub open spec fn strip_prefix(s: Seq<char>, p: Seq<char>) -> Option<Seq<char>> {
    if p.len() <= s.len() && s.take(p.len() as int) == p {
        Some(s.skip(p.len() as int))
    } else {
        None
    }
}

pub open spec fn invalid_reply_message(reply: Seq<char>) -> Seq<char> {
    "invalid response from vm-pool daemon: "@ + debug_quoted(reply)
}

/// What a client makes of the daemon's reply: the response of `OK`, the
/// error of `ERR`, and anything else refused.
pub open spec fn reply_result(reply: Seq<char>) -> Result<Seq<char>, Seq<char>> {
    let r = trim_newlines(reply);
    if r == "OK"@ {
        Ok(Seq::empty())
    } else if strip_prefix(r, "OK "@) is Some {
        Ok(strip_prefix(r, "OK "@).unwrap())
    } else if strip_prefix(r, "ERR "@) is Some {
        Err(strip_prefix(r, "ERR "@).unwrap())
    } else {
        Err(invalid_reply_message(r))
    }
}

fn has_prefix(v: &Vec<char>, p: &str) -> (b: bool)
    ensures
        b == strip_prefix(v@, p@) is Some,
{
    let q = chars_of(p);
    if q.len() > v.len() {
        return false;
    }
    let mut i: usize = 0;
    while i < q.len()
        invariant
            q@ == p@,
            q@.len() <= v@.len(),
            i <= q@.len(),
            forall|j: int| 0 <= j < i ==> v@[j] == q@[j],
        decreases q.len() - i,
    {
        if v[i] != q[i] {
            proof {
                assert(v@.take(q@.len() as int)[i as int] != q@[i as int]);
            }
            return false;
        }
        i = i + 1;
    }
    assert(v@.take(q@.len() as int) =~= q@);
    true
}

/// `send_command_to` after the reply has been read: the reply without its
/// trailing newlines, read as `OK`, `OK <response>` or `ERR <error>`.
pub fn parse_response(reply: &str) -> (r: Result<String, String>)
    ensures
        result_view(r) == reply_result(reply@),
{
    let chars = chars_of(reply);
    let mut end: usize = chars.len();
    assert(chars@.take(end as int) =~= chars@);
    while end > 0 && chars[end - 1] == '\n'
        invariant
            end <= chars@.len(),
            trim_newlines(chars@) == trim_newlines(chars@.take(end as int)),
        decreases end,
    {
        proof {
            let t = chars@.take(end as int);
            assert(t.drop_last() =~= chars@.take(end - 1));
        }
        end = end - 1;
    }
    let body = slice_chars(&chars, 0, end);
    proof {
        assert(chars@.take(chars@.len() as int) =~= chars@);
        assert(body@ =~= chars@.take(end as int));
        assert(trim_newlines(body@) == body@);
    }
    let text = string_of(&body);
    if str_eq(text.as_str(), "OK") {
        return Ok(String::new());
    }
    if has_prefix(&body, "OK ") {
        proof {
            reveal_strlit("OK ");
        }
        let rest = slice_chars(&body, 3, body.len());
        return Ok(string_of(&rest));
    }
    if has_prefix(&body, "ERR ") {
        proof {
            reveal_strlit("ERR ");
        }
        let rest = slice_chars(&body, 4, body.len());
        return Err(string_of(&rest));
    }
    let mut e = String::from_str("invalid response from vm-pool daemon: ");
    let q = debug_text(text.as_str());
    e.append(q.as_str());
    Err(e)
}


pub open spec fn no_trailing_newline(s: Seq<char>) -> bool {
    s.len() == 0 || s.last() != '\n'
}

proof fn lemma_trim_one_newline(t: Seq<char>)
    requires
        no_trailing_newline(t),
    ensures
        trim_newlines(t.push('\n')) == t,
        trim_newlines(t) == t,
{
    let u = t.push('\n');
    assert(u.drop_last() =~= t);
    assert(u.last() == '\n');
    assert(trim_newlines(t) == t);
    assert(trim_newlines(u) == trim_newlines(u.drop_last()));
}

/// What the daemon writes for an outcome reads back, at the client, as that
/// same outcome, where its text does not end in a newline.
pub proof fn lemma_reply_round_trip(result: Result<Seq<char>, Seq<char>>)
    requires
        match result {
            Ok(s) => no_trailing_newline(s),
            Err(e) => no_trailing_newline(e),
        },
    ensures
        reply_result(framed(result)) == result,
{
    reveal_strlit("OK\n");
    reveal_strlit("OK ");
    reveal_strlit("OK");
    reveal_strlit("\n");
    reveal_strlit("ERR ");
    match result {
        Ok(s) => {
            if s.len() == 0 {
                let t = "OK"@;
                assert("OK\n"@ =~= t.push('\n'));
                lemma_trim_one_newline(t);
                assert(s =~= Seq::<char>::empty());
            } else {
                let t = "OK "@ + s;
                assert(t.last() == s.last());
                assert(framed(result) =~= t.push('\n'));
                lemma_trim_one_newline(t);
                assert(t != "OK"@) by {
                    assert(t.len() != "OK"@.len());
                }
                assert(t.take(3) =~= "OK "@);
                assert(t.skip(3) =~= s);
            }
        },
        Err(e) => {
            let t = "ERR "@ + e;
            if e.len() > 0 {
                assert(t.last() == e.last());
            }
            assert(framed(result) =~= t.push('\n'));
            lemma_trim_one_newline(t);
            assert(t != "OK"@) by {
                assert(t.len() != "OK"@.len());
            }
            assert(t.take(3) != "OK "@) by {
                assert(t.take(3)[0] != "OK "@[0]);
            }
            assert(t.take(4) =~= "ERR "@);
            assert(t.skip(4) =~= e);
        },
    }
}


/// What the `vm-pool` command line asks for.
pub enum PoolCli {
    /// Start the daemon in the background, logging to `log_path` (a default
    /// where `None`) and writing its process id to `pid_path` where given.
    Start { log_path: Option<String>, pid_path: Option<String> },
    /// Run the daemon in the foreground.
    Serve,
    /// Send this request line to the daemon.
    Send(String),
    Help,
}

pub ghost enum PoolCliView {
    Start { log_path: Option<Seq<char>>, pid_path: Option<Seq<char>> },
    Serve,
    Send(Seq<char>),
    Help,
}

pub open spec fn arg(args: Seq<Seq<char>>, i: int) -> Option<Seq<char>> {
    if 0 <= i < args.len() {
        Some(args[i])
    } else {
        None
    }
}

pub open spec fn opt_string_view(o: Option<String>) -> Option<Seq<char>> {
    match o {
        Some(s) => Some(s@),
        None => None,
    }
}

pub open spec fn cli_view(c: PoolCli) -> PoolCliView {
    match c {
        PoolCli::Start { log_path, pid_path } => PoolCliView::Start {
            log_path: opt_string_view(log_path),
            pid_path: opt_string_view(pid_path),
        },
        PoolCli::Serve => PoolCliView::Serve,
        PoolCli::Send(line) => PoolCliView::Send(line@),
        PoolCli::Help => PoolCliView::Help,
    }
}

/// What the arguments after the program name ask for; no command means
/// `help`.
pub open spec fn pool_cli_request(args: Seq<Seq<char>>) -> Result<PoolCliView, Seq<char>> {
    let c = match arg(args, 0) {
        Some(c) => c,
        None => "help"@,
    };
    if c == "start"@ {
        Ok(PoolCliView::Start { log_path: arg(args, 1), pid_path: arg(args, 2) })
    } else if c == "serve"@ {
        Ok(PoolCliView::Serve)
    } else if c == "take"@ || c == "stop"@ || c == "status"@ || c == "ping"@ {
        Ok(PoolCliView::Send(c))
    } else if c == "drop"@ {
        match arg(args, 1) {
            Some(vm) => Ok(PoolCliView::Send("drop "@ + vm)),
            None => Err("usage: vm-pool drop <vm>"@),
        }
    } else if c == "wait-ready"@ {
        let secs = match arg(args, 1) {
            Some(a) => wait_secs(a),
            None => DEFAULT_WAIT_READY_SECS,
        };
        Ok(PoolCliView::Send("wait-ready "@ + decimal(secs as nat)))
    } else if c == "help"@ || c == "-h"@ || c == "--help"@ {
        Ok(PoolCliView::Help)
    } else {
        Err(unknown_command_message(c))
    }
}

/// `vm-pool wait-ready` sends the number of seconds the user gave, written
/// back in decimal, and the default of 600 seconds only where none is given
/// or it is not a `u64`.
pub proof fn lemma_wait_ready_timeout(n: u64, a: Seq<char>)
    ensures
        pool_cli_request(seq!["wait-ready"@, decimal(n as nat)]) == Ok::<PoolCliView, Seq<char>>(
            PoolCliView::Send("wait-ready "@ + decimal(n as nat)),
        ),
        pool_cli_request(seq!["wait-ready"@]) == Ok::<PoolCliView, Seq<char>>(
            PoolCliView::Send("wait-ready "@ + decimal(600)),
        ),
        parsed_unsigned(a, u64::MAX as nat) is None ==> pool_cli_request(seq!["wait-ready"@, a])
            == Ok::<PoolCliView, Seq<char>>(PoolCliView::Send("wait-ready "@ + decimal(600))),
{
    reveal_strlit("wait-ready");
    reveal_strlit("start");
    reveal_strlit("serve");
    reveal_strlit("take");
    reveal_strlit("stop");
    reveal_strlit("status");
    reveal_strlit("ping");
    reveal_strlit("drop");
    assert("wait-ready"@.len() == 10);
    assert("wait-ready"@ != "start"@ && "wait-ready"@ != "serve"@ && "wait-ready"@ != "take"@
        && "wait-ready"@ != "stop"@ && "wait-ready"@ != "status"@ && "wait-ready"@ != "ping"@
        && "wait-ready"@ != "drop"@) by {
        assert("start"@.len() == 5 && "serve"@.len() == 5 && "take"@.len() == 4 && "stop"@.len()
            == 4 && "status"@.len() == 6 && "ping"@.len() == 4 && "drop"@.len() == 4);
    }
    let d = decimal(n as nat);
    lemma_decimal_value(n as nat);
    assert(d.len() > 0);
    assert(crate::text::is_digit(d[0]));
    assert(crate::text::unsigned_digits(d) == d);
    assert(parsed_unsigned(d, u64::MAX as nat) == Some(n as nat));
}

/// The other `vm-pool` commands: no command asks for the usage; `take`,
/// `stop`, `status` and `ping` are sent as they are; `drop` sends the VM it
/// names; `start` passes on its log and pid-file paths; `serve` runs the
/// daemon.
pub proof fn lemma_pool_commands(vm: Seq<char>, log: Seq<char>, pid: Seq<char>)
    ensures
        pool_cli_request(Seq::empty()) == Ok::<PoolCliView, Seq<char>>(PoolCliView::Help),
        pool_cli_request(seq!["take"@]) == Ok::<PoolCliView, Seq<char>>(PoolCliView::Send("take"@)),
        pool_cli_request(seq!["stop"@]) == Ok::<PoolCliView, Seq<char>>(PoolCliView::Send("stop"@)),
        pool_cli_request(seq!["status"@]) == Ok::<PoolCliView, Seq<char>>(
            PoolCliView::Send("status"@),
        ),
        pool_cli_request(seq!["ping"@]) == Ok::<PoolCliView, Seq<char>>(PoolCliView::Send("ping"@)),
        pool_cli_request(seq!["drop"@, vm]) == Ok::<PoolCliView, Seq<char>>(
            PoolCliView::Send("drop "@ + vm),
        ),
        pool_cli_request(seq!["serve"@]) == Ok::<PoolCliView, Seq<char>>(PoolCliView::Serve),
        pool_cli_request(seq!["start"@, log, pid]) == Ok::<PoolCliView, Seq<char>>(
            PoolCliView::Start { log_path: Some(log), pid_path: Some(pid) },
        ),
{
    reveal_strlit("help");
    reveal_strlit("wait-ready");
    assert("wait-ready"@.len() == 10);
    reveal_strlit("start");
    reveal_strlit("serve");
    reveal_strlit("take");
    reveal_strlit("stop");
    reveal_strlit("status");
    reveal_strlit("ping");
    reveal_strlit("drop");
    assert("help"@.len() == 4 && "start"@.len() == 5 && "serve"@.len() == 5 && "take"@.len() == 4
        && "stop"@.len() == 4 && "status"@.len() == 6 && "ping"@.len() == 4 && "drop"@.len() == 4);
    assert("help"@ != "take"@ && "help"@ != "stop"@ && "help"@ != "ping"@ && "help"@ != "drop"@) by {
        assert("help"@[0] != "take"@[0] && "help"@[0] != "stop"@[0] && "help"@[0] != "ping"@[0]
            && "help"@[0] != "drop"@[0]);
    }
    assert("take"@ != "stop"@ && "ping"@ != "take"@ && "ping"@ != "stop"@ && "drop"@ != "take"@
        && "drop"@ != "stop"@ && "drop"@ != "ping"@) by {
        assert("take"@[0] != "stop"@[0] && "ping"@[0] != "take"@[0] && "ping"@[0] != "stop"@[0]
            && "drop"@[0] != "take"@[0] && "drop"@[0] != "stop"@[0] && "drop"@[0] != "ping"@[0]);
    }
    assert("serve"@ != "start"@) by {
        assert("serve"@[1] != "start"@[1]);
    }
}

/// What the client sends for `wait-ready` with a timeout reaches the daemon
/// as a wait of that many seconds.
pub proof fn lemma_wait_ready_line(n: u64)
    ensures
        requested("wait-ready "@ + decimal(n as nat)) == Ok::<PoolRequest, Seq<char>>(
            PoolRequest::WaitReady(n),
        ),
{
    reveal_strlit("wait-ready ");
    reveal_strlit("wait-ready");
    reveal_strlit("take");
    reveal_strlit("drop");
    reveal_strlit("stop");
    reveal_strlit("status");
    let d = decimal(n as nat);
    lemma_decimal_value(n as nat);
    assert(d.len() > 0);
    let s = "wait-ready "@ + d;
    let word = "wait-ready"@;
    assert(s.len() == 11 + d.len());
    assert(!is_space(s[0]));
    assert(trim_start(s) == s);
    assert forall|j: int| 0 <= j < 10 implies !spaces()(#[trigger] s[j]) by {
        assert(s[j] == "wait-ready "@[j]);
    }
    assert(spaces()(s[10]));
    lemma_first_where_is(s, spaces(), 10);
    assert(first_word(s) =~= word);
    let rest = s.skip(10);
    assert(after_first_word(s) == rest);
    assert(is_space(rest[0]));
    lemma_trim_start_skip(rest, 1);
    assert(rest.skip(1) =~= d);
    assert(!is_space(d[0])) by {
        assert(crate::text::is_digit(d[0]));
    }
    assert(trim_start(d) == d);
    assert forall|j: int| 0 <= j < d.len() implies !spaces()(#[trigger] d[j]) by {
        assert(crate::text::is_digit(d[j]));
    }
    lemma_first_where_is(d, spaces(), d.len() as int);
    assert(first_word(rest) =~= d);
    assert(crate::text::unsigned_digits(d) == d);
    assert(wait_secs(d) == n);
    assert(word.len() == 10 && "take"@.len() == 4 && "drop"@.len() == 4 && "stop"@.len() == 4
        && "status"@.len() == 6);
    assert(word != "take"@ && word != "drop"@ && word != "stop"@ && word != "status"@);
}

pub open spec fn cli_result_view(r: Result<PoolCli, String>) -> Result<PoolCliView, Seq<char>> {
    match r {
        Ok(c) => Ok(cli_view(c)),
        Err(e) => Err(e@),
    }
}

fn nth_arg(args: &Vec<String>, i: usize) -> (r: Option<String>)
    ensures
        opt_string_view(r) == arg(views(args@), i as int),
{
    if i < args.len() {
        Some(args[i].clone())
    } else {
        None
    }
}

/// Reads the `vm-pool` command line (without the program name).
pub fn parse_pool_args(args: &Vec<String>) -> (r: Result<PoolCli, String>)
    ensures
        cli_result_view(r) == pool_cli_request(views(args@)),
{
    let c = match nth_arg(args, 0) {
        Some(c) => c,
        None => String::from_str("help"),
    };
    let cs = c.as_str();
    if str_eq(cs, "start") {
        Ok(PoolCli::Start { log_path: nth_arg(args, 1), pid_path: nth_arg(args, 2) })
    } else if str_eq(cs, "serve") {
        Ok(PoolCli::Serve)
    } else if str_eq(cs, "take") || str_eq(cs, "stop") || str_eq(cs, "status") || str_eq(
        cs,
        "ping",
    ) {
        Ok(PoolCli::Send(c.clone()))
    } else if str_eq(cs, "drop") {
        match nth_arg(args, 1) {
            Some(vm) => {
                let mut line = String::from_str("drop ");
                line.append(vm.as_str());
                Ok(PoolCli::Send(line))
            },
            None => Err(String::from_str("usage: vm-pool drop <vm>")),
        }
    } else if str_eq(cs, "wait-ready") {
        let secs = match nth_arg(args, 1) {
            Some(a) => {
                let chars = chars_of(a.as_str());
                match parse_unsigned(&chars, u64::MAX) {
                    Some(n) => n,
                    None => DEFAULT_WAIT_READY_SECS,
                }
            },
            None => DEFAULT_WAIT_READY_SECS,
        };
        let mut line = String::from_str("wait-ready ");
        let t = u64_text(secs);
        line.append(t.as_str());
        Ok(PoolCli::Send(line))
    } else if str_eq(cs, "help") || str_eq(cs, "-h") || str_eq(cs, "--help") {
        Ok(PoolCli::Help)
    } else {
        let mut e = String::from_str("unknown command '");
        e.append(cs);
        e.append("'");
        Err(e)
    }
}

/// The daemon's socket: `BILLOW_VM_POOL_SOCKET` where set and not empty,
/// else `billow-vm-pool.sock` in the temporary directory.
pub fn socket_path(env_value: Option<&str>, temp_dir: &str) -> (p: String)
    ensures
        p@ == match env_value {
            Some(v) => if v@.len() > 0 {
                v@
            } else {
                crate::install::path_join(temp_dir@, "billow-vm-pool.sock"@)
            },
            None => crate::install::path_join(temp_dir@, "billow-vm-pool.sock"@),
        },
{
    match env_value {
        Some(v) => if v.unicode_len() > 0 {
            return String::from_str(v);
        },
        None => {},
    }
    crate::install::join_path(temp_dir, "billow-vm-pool.sock")
}

/// The reply to `stop`: how many VMs were destroyed.
pub fn stop_message(count: u64) -> (m: String)
    ensures
        m@ == "stopped "@ + decimal(count as nat),
{
    let mut m = String::from_str("stopped ");
    let n = u64_text(count);
    m.append(n.as_str());
    m
}

/// The usage text of the `vm-pool` command.
pub open spec fn pool_usage_text() -> Seq<char> {
    "usage: vm-pool <start <log> [pid-file]|serve|take|drop <vm>|stop|status|wait-ready [seconds]|ping>\nset BILLOW_VM_POOL_SOCKET to override the Unix socket path"@
}

/// What `vm-pool help` (or no command) prints, as a line.
pub fn pool_usage() -> (s: String)
    ensures
        s@ == pool_usage_text(),
{
    String::from_str(
        "usage: vm-pool <start <log> [pid-file]|serve|take|drop <vm>|stop|status|wait-ready [seconds]|ping>\nset BILLOW_VM_POOL_SOCKET to override the Unix socket path",
    )
}

/// Whether the client prints the daemon's reply to request `line`: the VM
/// that `take` hands out and the `status` line always, what `stop` answers
/// where it is not empty, nothing for the other requests.
pub open spec fn reply_printed(line: Seq<char>, response: Seq<char>) -> bool {
    let c = first_word(line);
    c == "take"@ || c == "status"@ || (c == "stop"@ && response.len() > 0)
}

/// The line the client prints for the daemon's reply `response` to request
/// `line`, if any.
pub fn printed_reply(line: &str, response: &str) -> (r: Option<String>)
    ensures
        r matches Some(p) ==> p@ == response@,
        r is Some <==> reply_printed(line@, response@),
{
    let chars = chars_of(line);
    let (w, _) = next_word(&chars);
    let word = string_of(&w);
    let c = word.as_str();
    if str_eq(c, "take") || str_eq(c, "status") || (str_eq(c, "stop") && response.unicode_len() > 0) {
        Some(String::from_str(response))
    } else {
        None
    }
}

} // verus!

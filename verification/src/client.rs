//! The agent side's decisions: classifying what the server sent, parsing a
//! finished command's formatted output back into its parts, and the texts
//! the agent answers with. Sockets, process spawning and files stay outside.
use vstd::prelude::*;

verus! {

use crate::security::trim_sp;
use crate::security::trim_sp_chars;
use crate::strutil::copy_range;
use crate::strutil::chars_to_string;
use crate::strutil::is_sub_at;
use crate::strutil::starts_with;
use crate::strutil::str_to_chars;

/// The first position where `p` occurs in `s`, or the length of `s` when it
/// does not occur.
pub open spec fn find_from(s: Seq<char>, p: Seq<char>, i: int) -> int
    decreases s.len() - i,
    when 0 <= i && p.len() >= 1
{
    if i + p.len() > s.len() {
        s.len() as int
    } else if is_sub_at(s, p, i) {
        i
    } else {
        find_from(s, p, i + 1)
    }
}

pub open spec fn find_sub_at(s: Seq<char>, p: Seq<char>) -> int {
    find_from(s, p, 0)
}

pub proof fn lemma_find_from(s: Seq<char>, p: Seq<char>, i: int)
    requires
        0 <= i,
        p.len() >= 1,
    ensures
        i <= find_from(s, p, i) || find_from(s, p, i) == s.len(),
        find_from(s, p, i) <= s.len(),
        find_from(s, p, i) < s.len() ==> is_sub_at(s, p, find_from(s, p, i)),
        forall|k: int| i <= k < find_from(s, p, i) ==> !is_sub_at(s, p, k),
    decreases s.len() - i,
{
    if i + p.len() <= s.len() && !is_sub_at(s, p, i) {
        lemma_find_from(s, p, i + 1);
    }
}

/// Finds `p` in `s`, reporting the first position or the length.
pub fn find_sub_pos(s: &Vec<char>, p: &Vec<char>) -> (r: usize)
    requires
        p@.len() >= 1,
    ensures
        r == find_sub_at(s@, p@),
        r <= s@.len(),
{
    let n = s.len();
    let m = p.len();
    let mut i: usize = 0;
    loop
        invariant
            0 <= i,
            n == s@.len(),
            m == p@.len(),
            m >= 1,
            i <= n + 1,
            find_sub_at(s@, p@) == find_from(s@, p@, i as int) || (find_sub_at(s@, p@) < i
                && find_sub_at(s@, p@) == s@.len()),
            forall|k: int| 0 <= k < i ==> find_from(s@, p@, k) == find_from(s@, p@, i as int),
        decreases n + 1 - i,
    {
        if i > n || m > n - i {
            proof {
                assert(find_from(s@, p@, i as int) == s@.len());
            }
            return n;
        }
        if crate::strutil::eq_at(s, p, i) {
            proof {
                assert(find_from(s@, p@, i as int) == i);
            }
            return i;
        }
        proof {
            assert(find_from(s@, p@, i as int) == find_from(s@, p@, i as int + 1));
        }
        i = i + 1;
    }
}

/// `s` with every leading repetition of `p` removed, as
/// str::trim_start_matches does.
pub open spec fn strip_all_prefix(s: Seq<char>, p: Seq<char>) -> Seq<char>
    decreases s.len(),
    when p.len() >= 1
{
    if starts_with(s, p) {
        strip_all_prefix(s.skip(p.len() as int), p)
    } else {
        s
    }
}

fn strip_all_prefix_chars(s: &Vec<char>, p: &Vec<char>) -> (r: Vec<char>)
    requires
        p@.len() >= 1,
    ensures
        r@ == strip_all_prefix(s@, p@),
    decreases s@.len(),
{
    if crate::strutil::begins_with(s, p) {
        let rest = copy_range(s, p.len(), s.len());
        proof {
            assert(rest@ =~= s@.skip(p@.len() as int));
        }
        strip_all_prefix_chars(&rest, p)
    } else {
        copy_range(s, 0, s.len())
    }
}

/// What one line from the server asks of the agent.
#[derive(Debug)]
pub enum ServerLine {
    /// A tracked command: `CMD:<command_id>::<command>`.
    Command { command_id: String, command: String },
    /// The older untracked form: `CMD:<command>`.
    LegacyCommand { command: String },
    /// A fan-out notification: `BROADCAST::<text>`.
    Broadcast { text: String },
    /// The server acknowledged a heartbeat.
    Ack,
    /// Nothing but whitespace.
    Empty,
    /// Anything else; logged and ignored.
    Other,
}

/// The classification of one trimmed server line, mirrored by
/// `classify_server_line`.
pub open spec fn spec_classify(line: Seq<char>) -> ServerLineV {
    let t = trim_sp(line);
    if starts_with(t, "CMD:"@) {
        let part = strip_all_prefix(t, "CMD:"@);
        let sep = find_sub_at(part, "::"@);
        if sep + 2 <= part.len() {
            ServerLineV::Command {
                command_id: trim_sp(part.take(sep)),
                command: trim_sp(part.skip(sep + 2)),
            }
        } else {
            ServerLineV::LegacyCommand { command: trim_sp(part) }
        }
    } else if starts_with(t, "BROADCAST::"@) {
        ServerLineV::Broadcast { text: strip_all_prefix(t, "BROADCAST::"@) }
    } else if crate::strutil::has_sub(t, "ACK"@) {
        ServerLineV::Ack
    } else if t.len() == 0 {
        ServerLineV::Empty
    } else {
        ServerLineV::Other
    }
}

pub ghost enum ServerLineV {
    Command { command_id: Seq<char>, command: Seq<char> },
    LegacyCommand { command: Seq<char> },
    Broadcast { text: Seq<char> },
    Ack,
    Empty,
    Other,
}

impl View for ServerLine {
    type V = ServerLineV;

    open spec fn view(&self) -> ServerLineV {
        match self {
            ServerLine::Command { command_id, command } => ServerLineV::Command {
                command_id: command_id@,
                command: command@,
            },
            ServerLine::LegacyCommand { command } => ServerLineV::LegacyCommand {
                command: command@,
            },
            ServerLine::Broadcast { text } => ServerLineV::Broadcast { text: text@ },
            ServerLine::Ack => ServerLineV::Ack,
            ServerLine::Empty => ServerLineV::Empty,
            ServerLine::Other => ServerLineV::Other,
        }
    }
}

/// Sorts one server line into what it asks the agent to do: a tracked or
/// legacy command, a broadcast, an acknowledgement, or noise.
pub fn classify_server_line(line: &str) -> (r: ServerLine)
    ensures
        r@ == spec_classify(line@),
{
    let chars = str_to_chars(line);
    let t = trim_sp_chars(&chars);
    let cmd_p = str_to_chars("CMD:");
    proof {
        reveal_strlit("CMD:");
    }
    if crate::strutil::begins_with(&t, &cmd_p) {
        let part = strip_all_prefix_chars(&t, &cmd_p);
        let sep_p = str_to_chars("::");
        proof {
            reveal_strlit("::");
        }
        let sep = find_sub_pos(&part, &sep_p);
        if part.len() >= 2 && sep <= part.len() - 2 {
            let id_part = copy_range(&part, 0, sep);
            let cmd_part = copy_range(&part, sep + 2, part.len());
            proof {
                assert(id_part@ =~= part@.take(sep as int));
                assert(cmd_part@ =~= part@.skip(sep as int + 2));
            }
            let id_t = trim_sp_chars(&id_part);
            let cmd_t = trim_sp_chars(&cmd_part);
            ServerLine::Command {
                command_id: chars_to_string(&id_t),
                command: chars_to_string(&cmd_t),
            }
        } else {
            let part_t = trim_sp_chars(&part);
            ServerLine::LegacyCommand { command: chars_to_string(&part_t) }
        }
    } else {
        let bc_p = str_to_chars("BROADCAST::");
        proof {
            reveal_strlit("BROADCAST::");
        }
        if crate::strutil::begins_with(&t, &bc_p) {
            let text = strip_all_prefix_chars(&t, &bc_p);
            ServerLine::Broadcast { text: chars_to_string(&text) }
        } else {
            let ack_p = str_to_chars("ACK");
            if crate::strutil::contains_sub(&t, &ack_p) {
                ServerLine::Ack
            } else if t.len() == 0 {
                ServerLine::Empty
            } else {
                ServerLine::Other
            }
        }
    }
}

/// The first position of `c` in `s`, or the length when absent.
pub open spec fn find_char_at(s: Seq<char>, c: char) -> int {
    find_sub_at(s, seq![c])
}

fn find_char_pos(s: &Vec<char>, c: char) -> (r: usize)
    ensures
        r == find_char_at(s@, c),
        r <= s@.len(),
{
    let mut p: Vec<char> = Vec::new();
    p.push(c);
    proof {
        assert(p@ =~= seq![c]);
    }
    find_sub_pos(s, &p)
}

/// What an exit-code string denotes: an optional minus sign and decimal
/// digits covering the whole string, else the failure sentinel.
pub open spec fn spec_exit_code(s: Seq<char>) -> int {
    match crate::codec::p_i32(s, 0) {
        Some((v, j)) => if j == s.len() {
            v as int
        } else {
            -1
        },
        None => -1,
    }
}

fn parse_exit_code(s: &Vec<char>) -> (r: i32)
    ensures
        r as int == spec_exit_code(s@),
{
    match crate::codec::e_i32(s, 0) {
        Some((v, j)) => if j == s.len() {
            v
        } else {
            -1
        },
        None => -1,
    }
}

/// How a finished command's formatted report is split back into its parts,
/// mirrored by `parse_execution_output`: the code after the status marker,
/// the standard output between its marker and the error marker, and the
/// error output after its own line; at each missing marker the remainder is
/// passed through whole.
pub open spec fn spec_parse_execution_output(result: Seq<char>) -> (Seq<char>, Seq<char>, int) {
    let m1 = find_sub_at(result, "状态码: "@);
    if m1 == result.len() {
        (result, Seq::<char>::empty(), 0int)
    } else {
        let status_part = result.skip(m1);
        let colon = find_sub_at(status_part, ": "@);
        if colon == status_part.len() {
            (result, Seq::<char>::empty(), 0int)
        } else {
            let after_colon = status_part.skip(colon + 2);
            let nl = find_char_at(after_colon, '\n');
            if nl == after_colon.len() {
                (result, Seq::<char>::empty(), 0int)
            } else {
                let code = spec_exit_code(after_colon.take(nl));
                let m2 = find_sub_at(result, "标准输出:\n"@);
                if m2 == result.len() {
                    (result, Seq::<char>::empty(), code)
                } else {
                    let after_marker = result.skip(m2);
                    let nl2 = find_char_at(after_marker, '\n');
                    if nl2 == after_marker.len() {
                        (result, Seq::<char>::empty(), code)
                    } else {
                        let stdout_part = after_marker.skip(nl2 + 1);
                        let m3 = find_sub_at(stdout_part, "\n错误输出:\n"@);
                        if m3 == stdout_part.len() {
                            (stdout_part, Seq::<char>::empty(), code)
                        } else {
                            let stderr_part = stdout_part.skip(m3);
                            let nl3 = find_char_at(stderr_part, '\n');
                            if nl3 == stderr_part.len() {
                                (stdout_part.take(m3), Seq::<char>::empty(), code)
                            } else {
                                (stdout_part.take(m3), stderr_part.skip(nl3 + 1), code)
                            }
                        }
                    }
                }
            }
        }
    }
}

/// Splits a finished command's formatted report into output, error output
/// and exit code.
pub fn parse_execution_output(result: &str) -> (r: (String, String, i32))
    ensures
        ({
            let (out, err, code) = spec_parse_execution_output(result@);
            r.0@ == out && r.1@ == err && r.2 as int == code
        }),
{
    proof {
        reveal_strlit("状态码: ");
        reveal_strlit(": ");
        reveal_strlit("标准输出:\n");
        reveal_strlit("\n错误输出:\n");
    }
    let chars = str_to_chars(result);
    let marker1 = str_to_chars("状态码: ");
    let m1 = find_sub_pos(&chars, &marker1);
    if m1 == chars.len() {
        return (chars_to_string(&chars), String::new(), 0);
    }
    let status_part = copy_range(&chars, m1, chars.len());
    proof {
        assert(status_part@ =~= chars@.skip(m1 as int));
    }
    let colon_p = str_to_chars(": ");
    let colon = find_sub_pos(&status_part, &colon_p);
    if colon == status_part.len() {
        return (chars_to_string(&chars), String::new(), 0);
    }
    proof {
        lemma_find_from(status_part@, ": "@, 0);
        reveal_strlit(": ");
        assert(is_sub_at(status_part@, ": "@, colon as int));
        assert(colon + 2 <= status_part@.len());
    }
    let after_colon = copy_range(&status_part, colon + 2, status_part.len());
    proof {
        assert(after_colon@ =~= status_part@.skip(colon as int + 2));
    }
    let nl = find_char_pos(&after_colon, '\n');
    if nl == after_colon.len() {
        return (chars_to_string(&chars), String::new(), 0);
    }
    proof {
        assert(nl <= after_colon@.len());
    }
    let status_str = copy_range(&after_colon, 0, nl);
    proof {
        assert(status_str@ =~= after_colon@.take(nl as int));
    }
    let code = parse_exit_code(&status_str);
    let marker2 = str_to_chars("标准输出:\n");
    let m2 = find_sub_pos(&chars, &marker2);
    if m2 == chars.len() {
        return (chars_to_string(&chars), String::new(), code);
    }
    let after_marker = copy_range(&chars, m2, chars.len());
    proof {
        assert(after_marker@ =~= chars@.skip(m2 as int));
    }
    let nl2 = find_char_pos(&after_marker, '\n');
    if nl2 == after_marker.len() {
        return (chars_to_string(&chars), String::new(), code);
    }
    proof {
        assert(nl2 < after_marker@.len());
    }
    let stdout_part = copy_range(&after_marker, nl2 + 1, after_marker.len());
    proof {
        assert(stdout_part@ =~= after_marker@.skip(nl2 as int + 1));
    }
    let marker3 = str_to_chars("\n错误输出:\n");
    let m3 = find_sub_pos(&stdout_part, &marker3);
    if m3 == stdout_part.len() {
        return (chars_to_string(&stdout_part), String::new(), code);
    }
    let out = copy_range(&stdout_part, 0, m3);
    proof {
        assert(out@ =~= stdout_part@.take(m3 as int));
    }
    let stderr_part = copy_range(&stdout_part, m3, stdout_part.len());
    proof {
        assert(stderr_part@ =~= stdout_part@.skip(m3 as int));
    }
    let nl3 = find_char_pos(&stderr_part, '\n');
    if nl3 == stderr_part.len() {
        return (chars_to_string(&out), String::new(), code);
    }
    proof {
        assert(nl3 < stderr_part@.len());
    }
    let err = copy_range(&stderr_part, nl3 + 1, stderr_part.len());
    proof {
        assert(err@ =~= stderr_part@.skip(nl3 as int + 1));
    }
    (chars_to_string(&out), chars_to_string(&err), code)
}

/// The error text the agent reports when the policy vetoes a command.
pub fn blocked_error_output(reason: &str) -> (r: String)
    ensures
        r@ == "命令被阻止: "@ + reason@,
{
    crate::strutil::concat2("命令被阻止: ", reason)
}

} // verus!

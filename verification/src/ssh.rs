//! What the manager hands to and reads from the ssh tools: the ssh command
//! line, the exit code it records, the variables ssh-agent prints, and which
//! files of `~/.ssh` are keys.
use vstd::prelude::*;
use crate::connection::{Connection, ConnectionView};
use crate::app::{connection_views, text_views};
use crate::number::{format_i32, decimal_text};
use crate::text::{push_char, str_eq, ends_with};

verus! {

/// `user@host`, with `:port` when the connection has a port.
pub open spec fn jump_target(j: ConnectionView) -> Seq<char> {
    j.username + "@"@ + j.hostname + match j.port {
        Some(p) => ":"@ + decimal_text(p as int),
        None => Seq::empty(),
    }
}

/// Texts joined with `sep` between them.
pub open spec fn joined(items: Seq<Seq<char>>, sep: Seq<char>) -> Seq<char>
    decreases items.len(),
{
    if items.len() == 0 {
        Seq::empty()
    } else if items.len() == 1 {
        items[0]
    } else {
        joined(items.drop_last(), sep) + sep + items.last()
    }
}

/// The arguments of the ssh command for a connection reached through
/// `jumps`: `-J` with the jump hosts in order, `-p` with the port, `-i` with
/// the identity file, then `user@host`.
pub open spec fn ssh_args(conn: ConnectionView, jumps: Seq<ConnectionView>) -> Seq<Seq<char>> {
    let j = if jumps.len() > 0 {
        seq!["-J"@, joined(jumps.map_values(|c: ConnectionView| jump_target(c)), ","@)]
    } else {
        Seq::empty()
    };
    let p = match conn.port {
        Some(port) => seq!["-p"@, decimal_text(port as int)],
        None => Seq::empty(),
    };
    let i = match conn.identity_file {
        Some(f) => seq!["-i"@, f],
        None => Seq::empty(),
    };
    j + p + i + seq![conn.username + "@"@ + conn.hostname]
}

/// The flag at option position `k` of `a` (options come as flag/value pairs
/// before the final `user@host`).
pub open spec fn has_flag(a: Seq<Seq<char>>, k: int, flag: Seq<char>) -> bool {
    0 <= k < a.len() - 1 && k % 2 == 0 && a[k] == flag
}

/// The ssh arguments hand over every setting of the connection: the options
/// come as flag/value pairs followed by `user@host`; the identity file
/// follows "-i" whenever there is one, whatever the port; the port follows
/// "-p" exactly when there is one; the jump hosts, comma-joined in order,
/// follow "-J" exactly when there are some.
pub proof fn lemma_ssh_args_settings(conn: ConnectionView, jumps: Seq<ConnectionView>)
    ensures
        ssh_args(conn, jumps).len() % 2 == 1,
        ssh_args(conn, jumps).last() == conn.username + "@"@ + conn.hostname,
        (exists|k: int| has_flag(ssh_args(conn, jumps), k, "-i"@)) == conn.identity_file is Some,
        conn.identity_file matches Some(f) ==> exists|k: int|
            has_flag(ssh_args(conn, jumps), k, "-i"@) && ssh_args(conn, jumps)[k + 1] == f,
        (exists|k: int| has_flag(ssh_args(conn, jumps), k, "-p"@)) == conn.port is Some,
        conn.port matches Some(p) ==> exists|k: int|
            has_flag(ssh_args(conn, jumps), k, "-p"@) && ssh_args(conn, jumps)[k + 1] == decimal_text(p as int),
        (exists|k: int| has_flag(ssh_args(conn, jumps), k, "-J"@)) == (jumps.len() > 0),
        jumps.len() > 0 ==> ssh_args(conn, jumps)[0] == "-J"@ && ssh_args(conn, jumps)[1] == joined(
            jumps.map_values(|c: ConnectionView| jump_target(c)),
            ","@,
        ),
{
    reveal_strlit("-i");
    reveal_strlit("-p");
    reveal_strlit("-J");
    let a = ssh_args(conn, jumps);
    let jl: int = if jumps.len() > 0 { 2 } else { 0 };
    let pl: int = if conn.port is Some { 2 } else { 0 };
    let il: int = if conn.identity_file is Some { 2 } else { 0 };
    assert(a.len() == jl + pl + il + 1);
    assert forall|k: int| 0 <= k < a.len() - 1 && k % 2 == 0 implies (k == 0 && jl == 2 && a[k] == "-J"@) || (
    k == jl && pl == 2 && a[k] == "-p"@) || (k == jl + pl && il == 2 && a[k] == "-i"@) by {}
    assert("-J"@ != "-p"@ && "-J"@ != "-i"@ && "-p"@ != "-i"@) by {
        assert("-J"@[1] != "-p"@[1]);
        assert("-J"@[1] != "-i"@[1]);
        assert("-p"@[1] != "-i"@[1]);
    }
    if jl == 2 {
        assert(has_flag(a, 0, "-J"@));
    }
    if pl == 2 {
        assert(has_flag(a, jl, "-p"@));
    }
    if il == 2 {
        assert(has_flag(a, jl + pl, "-i"@));
    }
}

fn jump_target_text(j: &Connection) -> (r: String)
    ensures
        r@ == jump_target(j@),
{
    let mut out = j.username.clone();
    out.append("@");
    out.append(j.hostname.as_str());
    match j.port {
        Some(p) => {
            out.append(":");
            let d = format_i32(p);
            out.append(d.as_str());
        },
        None => {},
    }
    assert(out@ =~= jump_target(j@));
    out
}

fn push_text(v: &mut Vec<String>, s: String)
    ensures
        text_views(final(v)@) == text_views(old(v)@).push(s@),
{
    let ghost before = v@;
    v.push(s);
    assert(text_views(v@) =~= text_views(before).push(s@));
}

/// Builds the arguments of the ssh command (see `ssh_args`).
pub fn ssh_command_args(conn: &Connection, jumps: &Vec<Connection>) -> (r: Vec<String>)
    ensures
        text_views(r@) == ssh_args(conn@, connection_views(jumps@)),
        conn@.identity_file matches Some(f) ==> exists|k: int|
            has_flag(text_views(r@), k, "-i"@) && text_views(r@)[k + 1] == f,
        (exists|k: int| has_flag(text_views(r@), k, "-p"@)) == conn.port is Some,
{
    let mut args: Vec<String> = Vec::new();
    assert(text_views(args@) =~= Seq::<Seq<char>>::empty());
    let ghost jv = connection_views(jumps@);
    let ghost targets = jv.map_values(|c: ConnectionView| jump_target(c));
    let n = jumps.len();
    if n > 0 {
        let mut list = jump_target_text(&jumps[0]);
        let mut i: usize = 1;
        proof {
            assert(targets.take(1) =~= seq![targets[0]]);
        }
        while i < n
            invariant
                n == jumps@.len(),
                1 <= i <= n,
                jv == connection_views(jumps@),
                targets == jv.map_values(|c: ConnectionView| jump_target(c)),
                list@ == joined(targets.take(i as int), ","@),
            decreases n - i,
        {
            let t = jump_target_text(&jumps[i]);
            list.append(",");
            list.append(t.as_str());
            proof {
                let tk = targets.take(i + 1);
                assert(tk.drop_last() =~= targets.take(i as int));
                assert(tk.last() == t@);
            }
            i = i + 1;
        }
        assert(targets.take(n as int) =~= targets);
        push_text(&mut args, String::from_str("-J"));
        push_text(&mut args, list);
    }
    match conn.port {
        Some(p) => {
            push_text(&mut args, String::from_str("-p"));
            push_text(&mut args, format_i32(p));
        },
        None => {},
    }
    match &conn.identity_file {
        Some(f) => {
            push_text(&mut args, String::from_str("-i"));
            push_text(&mut args, f.clone());
        },
        None => {},
    }
    let mut user_host = conn.username.clone();
    user_host.append("@");
    user_host.append(conn.hostname.as_str());
    push_text(&mut args, user_host);
    assert(text_views(args@) =~= ssh_args(conn@, jv));
    proof {
        lemma_ssh_args_settings(conn@, jv);
    }
    args
}

/// The exit code recorded for a finished ssh session: "0" on success, the
/// process's code otherwise, or "unknown" when it ended without one.
pub open spec fn exit_code_of(success: bool, code: Option<i32>) -> Seq<char> {
    if success {
        "0"@
    } else {
        match code {
            Some(c) => decimal_text(c as int),
            None => "unknown"@,
        }
    }
}

/// The exit code to record for a finished ssh session.
pub fn exit_code_text(success: bool, code: Option<i32>) -> (r: String)
    ensures
        r@ == exit_code_of(success, code),
{
    if success {
        String::from_str("0")
    } else {
        match code {
            Some(c) => format_i32(c),
            None => String::from_str("unknown"),
        }
    }
}

/// The part of `s` before the first `c` (all of `s` when it has none).
pub open spec fn before_first(s: Seq<char>, c: char) -> Seq<char>
    decreases s.len(),
{
    if s.len() == 0 {
        s
    } else if s[0] == c {
        Seq::empty()
    } else {
        seq![s[0]] + before_first(s.drop_first(), c)
    }
}

/// The part of `s` after the first `c`, if it has one.
pub open spec fn after_first(s: Seq<char>, c: char) -> Option<Seq<char>>
    decreases s.len(),
{
    if s.len() == 0 {
        None
    } else if s[0] == c {
        Some(s.drop_first())
    } else {
        after_first(s.drop_first(), c)
    }
}

/// The text after the first `c` is shorter than the whole text.
pub proof fn lemma_after_first_shorter(s: Seq<char>, c: char)
    ensures
        after_first(s, c) matches Some(r) ==> r.len() < s.len(),
    decreases s.len(),
{
    if s.len() > 0 && s[0] != c {
        lemma_after_first_shorter(s.drop_first(), c);
    }
}

/// A line without the '\r' of a "\r\n" ending.
pub open spec fn without_cr(t: Seq<char>) -> Seq<char> {
    if t.len() > 0 && t.last() == '\r' {
        t.drop_last()
    } else {
        t
    }
}

/// The lines of a text as std's `str::lines` gives them: split at each '\n',
/// a '\r' before it dropped, and no empty line after a final '\n'.
pub open spec fn lines_of(s: Seq<char>) -> Seq<Seq<char>>
    decreases s.len(),
{
    if s.len() == 0 {
        Seq::empty()
    } else {
        match after_first(s, '\n') {
            Some(rest) => {
                proof {
                    lemma_after_first_shorter(s, '\n');
                }
                seq![without_cr(before_first(s, '\n'))] + lines_of(rest)
            },
            None => seq![s],
        }
    }
}

/// The variable a line of ssh-agent's output sets: in the part before the
/// first ';', the name before the first '=' and the value after it.
pub open spec fn assignment_of(line: Seq<char>) -> Option<(Seq<char>, Seq<char>)> {
    let kv = before_first(line, ';');
    match after_first(kv, '=') {
        Some(val) => Some((before_first(kv, '='), val)),
        None => None,
    }
}

/// The variables set by ssh-agent's output, in order.
pub open spec fn agent_assignments(out: Seq<char>) -> Seq<(Seq<char>, Seq<char>)> {
    lines_of(out).filter_map(|l: Seq<char>| assignment_of(l))
}

proof fn lemma_first_occurrence(t: Seq<char>, c: char, k: int)
    requires
        0 <= k < t.len(),
        t[k] == c,
        forall|j: int| 0 <= j < k ==> t[j] != c,
    ensures
        before_first(t, c) == t.take(k),
        after_first(t, c) == Some(t.skip(k + 1)),
    decreases k,
{
    if k > 0 {
        lemma_first_occurrence(t.drop_first(), c, k - 1);
        assert(t.drop_first().skip(k) =~= t.skip(k + 1));
        assert(seq![t[0]] + t.drop_first().take(k - 1) =~= t.take(k));
    } else {
        assert(t.take(0) =~= Seq::<char>::empty());
        assert(t.drop_first() =~= t.skip(1));
    }
}

proof fn lemma_no_occurrence(t: Seq<char>, c: char)
    requires
        forall|j: int| 0 <= j < t.len() ==> t[j] != c,
    ensures
        before_first(t, c) == t,
        after_first(t, c) is None,
    decreases t.len(),
{
    if t.len() > 0 {
        lemma_no_occurrence(t.drop_first(), c);
        assert(seq![t[0]] + t.drop_first() =~= t);
    }
}

/// The first position at or after `start` that holds `c`, if any.
fn find_char(s: &str, c: char, start: usize) -> (r: Option<usize>)
    requires
        start <= s@.len(),
    ensures
        match r {
            Some(p) => start <= p < s@.len() && s@[p as int] == c && forall|j: int|
                start <= j < p ==> s@[j] != c,
            None => forall|j: int| start <= j < s@.len() ==> s@[j] != c,
        },
{
    let n = s.unicode_len();
    let mut i = start;
    while i < n
        invariant
            n == s@.len(),
            start <= i <= n,
            forall|j: int| start <= j < i ==> s@[j] != c,
        decreases n - i,
    {
        if s.get_char(i) == c {
            return Some(i);
        }
        i = i + 1;
    }
    None
}

/// The variable set by one line of ssh-agent's output.
pub fn parse_assignment(line: &str) -> (r: Option<(String, String)>)
    ensures
        match r {
            Some((k, v)) => assignment_of(line@) == Some((k@, v@)),
            None => assignment_of(line@) is None,
        },
{
    let n = line.unicode_len();
    let end = match find_char(line, ';', 0) {
        Some(p) => {
            proof {
                lemma_first_occurrence(line@, ';', p as int);
            }
            p
        },
        None => {
            proof {
                lemma_no_occurrence(line@, ';');
                assert(line@.take(n as int) =~= line@);
            }
            n
        },
    };
    let kv = line.substring_char(0, end);
    assert(kv@ == before_first(line@, ';'));
    match find_char(kv, '=', 0) {
        Some(pos) => {
            proof {
                lemma_first_occurrence(kv@, '=', pos as int);
            }
            let m = kv.unicode_len();
            let key = String::from_str(kv.substring_char(0, pos));
            let val = String::from_str(kv.substring_char(pos + 1, m));
            assert(val@ =~= kv@.skip(pos + 1));
            Some((key, val))
        },
        None => {
            proof {
                lemma_no_occurrence(kv@, '=');
            }
            None
        },
    }
}

/// The views of variable assignments.
pub open spec fn assignment_views(v: Seq<(String, String)>) -> Seq<(Seq<char>, Seq<char>)> {
    v.map_values(|p: (String, String)| (p.0@, p.1@))
}

fn strip_cr(t: String) -> (r: String)
    ensures
        r@ == without_cr(t@),
{
    let n = t.as_str().unicode_len();
    if n > 0 && t.as_str().get_char(n - 1) == '\r' {
        String::from_str(t.as_str().substring_char(0, n - 1))
    } else {
        t
    }
}

fn collect_assignments(s: &str, start: usize, out: &mut Vec<(String, String)>)
    requires
        start <= s@.len(),
    ensures
        assignment_views(final(out)@) == assignment_views(old(out)@) + agent_assignments(
            s@.skip(start as int),
        ),
    decreases s@.len() - start,
{
    let n = s.unicode_len();
    let ghost rest = s@.skip(start as int);
    if start == n {
        assert(rest.len() == 0);
        assert(lines_of(rest) =~= Seq::<Seq<char>>::empty());
        assert(assignment_views(out@) =~= assignment_views(out@) + agent_assignments(rest));
        return;
    }
    let ghost f = |l: Seq<char>| assignment_of(l);
    match find_char(s, '\n', start) {
        Some(p) => {
            proof {
                lemma_first_occurrence(rest, '\n', p - start);
                assert(rest.take(p - start) =~= s@.subrange(start as int, p as int));
                assert(rest.skip(p - start + 1) =~= s@.skip(p + 1));
            }
            let line = strip_cr(String::from_str(s.substring_char(start, p)));
            let ghost head = line@;
            let ghost tail_lines = lines_of(s@.skip(p + 1));
            assert(lines_of(rest) == seq![head] + tail_lines);
            proof {
                let all = seq![head] + tail_lines;
                assert(all.drop_first() =~= tail_lines);
                lemma_filter_map_front(all, f);
            }
            let ghost out0 = out@;
            match parse_assignment(line.as_str()) {
                Some(kv) => {
                    out.push(kv);
                    assert(assignment_views(out@) =~= assignment_views(out0).push((head_key(kv), head_val(kv))));
                },
                None => {},
            }
            collect_assignments(s, p + 1, out);
            assert(assignment_views(out@) =~= assignment_views(out0) + agent_assignments(rest));
        },
        None => {
            proof {
                lemma_no_occurrence(rest, '\n');
                assert(lines_of(rest) == seq![rest]);
                lemma_filter_map_front(seq![rest], f);
                assert(seq![rest].drop_first() =~= Seq::<Seq<char>>::empty());
            }
            let line = String::from_str(s.substring_char(start, n));
            assert(line@ =~= rest);
            let ghost out0 = out@;
            match parse_assignment(line.as_str()) {
                Some(kv) => {
                    out.push(kv);
                },
                None => {},
            }
            assert(assignment_views(out@) =~= assignment_views(out0) + agent_assignments(rest));
        },
    }
}

spec fn head_key(kv: (String, String)) -> Seq<char> {
    kv.0@
}

spec fn head_val(kv: (String, String)) -> Seq<char> {
    kv.1@
}

proof fn lemma_filter_map_front<A, B>(s: Seq<A>, f: spec_fn(A) -> Option<B>)
    requires
        s.len() > 0,
    ensures
        s.filter_map(f) == (match f(s[0]) {
            Some(b) => seq![b],
            None => Seq::empty(),
        }) + s.drop_first().filter_map(f),
    decreases s.len(),
{
    if s.len() == 1 {
        assert(s.drop_last() =~= Seq::<A>::empty());
        assert(s.drop_first() =~= Seq::<A>::empty());
    } else {
        lemma_filter_map_front(s.drop_last(), f);
        assert(s.drop_last().drop_first() =~= s.drop_first().drop_last());
        assert(s.drop_first().last() == s.last());
        assert(s.drop_last()[0] == s[0]);
    }
}

/// The variables ssh-agent's output sets (name and value, in order), which
/// the program then puts into its environment.
pub fn parse_agent_output(stdout: &str) -> (r: Vec<(String, String)>)
    ensures
        assignment_views(r@) == agent_assignments(stdout@),
{
    let mut out: Vec<(String, String)> = Vec::new();
    assert(assignment_views(out@) =~= Seq::<(Seq<char>, Seq<char>)>::empty());
    collect_assignments(stdout, 0, &mut out);
    assert(stdout@.skip(0) =~= stdout@);
    out
}

/// Whether a file in `~/.ssh` is passed over when listing keys: the config,
/// known-hosts files and public keys.
pub open spec fn skipped_key_file(name: Seq<char>) -> bool {
    name == "config"@ || name == "known_hosts"@ || ".known_hosts"@.is_suffix_of(name) || ".pub"@.is_suffix_of(name)
}

/// How a file of `~/.ssh` is listed: `None` when it is passed over, else
/// whether it is a private key and whether its permissions are safe (no
/// access for group or others; a file whose mode could not be read counts as
/// safe).
pub open spec fn key_file_status(name: Seq<char>, mode: Option<u32>) -> Option<(bool, bool)> {
    if skipped_key_file(name) {
        None
    } else {
        let is_private = !".pub"@.is_suffix_of(name);
        let secure = if is_private {
            match mode {
                Some(m) => m & 0o077 == 0,
                None => true,
            }
        } else {
            true
        };
        Some((is_private, secure))
    }
}

/// Every file of `~/.ssh` that is not passed over is listed as a private
/// key, and it is flagged as unsafe exactly when its mode gives the group or
/// others any permission (read, write or execute).
pub proof fn lemma_private_key_permissions(name: Seq<char>, m: u32)
    requires
        !skipped_key_file(name),
    ensures
        (m & 0o070 != 0 || m & 0o007 != 0) ==> key_file_status(name, Some(m)) == Some((true, false)),
        (m & 0o070 == 0 && m & 0o007 == 0) ==> key_file_status(name, Some(m)) == Some((true, true)),
        key_file_status(name, None) == Some((true, true)),
{
    assert((m & 0o077 == 0) == (m & 0o070 == 0 && m & 0o007 == 0)) by (bit_vector);
}

/// Classifies a regular file of `~/.ssh` by its name and permission bits.
pub fn classify_key_file(file_name: &str, mode: Option<u32>) -> (r: Option<(bool, bool)>)
    ensures
        r == key_file_status(file_name@, mode),
        r matches Some((is_private, secure)) ==> is_private && match mode {
            Some(m) => secure == (m & 0o070 == 0 && m & 0o007 == 0),
            None => secure,
        },
{
    if str_eq(file_name, "config") || str_eq(file_name, "known_hosts") || ends_with(file_name, ".known_hosts")
        || ends_with(file_name, ".pub") {
        return None;
    }
    proof {
        if let Some(m) = mode {
            lemma_private_key_permissions(file_name@, m);
        }
    }
    let is_private = !ends_with(file_name, ".pub");
    let mut secure = true;
    if is_private {
        if let Some(m) = mode {
            if m & 0o077 != 0 {
                secure = false;
            }
        }
    }
    Some((is_private, secure))
}

/// A session that ends successfully is shown as "Success" in the history,
/// and one that ends without an exit code as "Signal killed".
pub proof fn lemma_recorded_exit_labels(code: Option<i32>)
    ensures
        crate::history_view::exit_label(exit_code_of(true, code)) == "Success"@,
        crate::history_view::exit_label(exit_code_of(false, None)) == "Signal killed"@,
{
    reveal_strlit("0");
    reveal_strlit("1");
    reveal_strlit("2");
    reveal_strlit("126");
    reveal_strlit("127");
    reveal_strlit("130");
    reveal_strlit("255");
    reveal_strlit("unknown");
    assert("unknown"@.len() == 7);
    assert("unknown"@ != "0"@ && "unknown"@ != "1"@ && "unknown"@ != "2"@);
    assert("unknown"@ != "126"@ && "unknown"@ != "127"@ && "unknown"@ != "130"@ && "unknown"@ != "255"@);
}

} // verus!

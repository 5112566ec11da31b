//! Host lines, secrets given as shell substitutions, and inventories.
//!
//! A host line reads `[user[:password]@]host[ | password][ > tube]`. The line
//! is trimmed first. Only the first ` | ` and the first ` > ` count. A
//! password given behind ` | ` wins over one given before `@`.
use crate::entity::const_values::{PASS_SEPARATOR, TUBE_NAME_SEPARATOR};
use crate::entity::supfile::networks::{Host, HostView, Network};
use crate::text::{
    chars_of, contains, ends_with, find, find_from, find_index, has_prefix, has_suffix,
    lemma_absent_in_part, lemma_find_from, lemma_trim_bounds, occurs_at, split, split_text,
    starts_with, string_of, sub_chars, trim, trim_bounds, trim_end, trim_start, trimmed_chars,
};
use vstd::prelude::*;
use vstd::string::*;

verus! {

/// A host line that the grammar does not admit.
#[derive(Debug, Clone, Copy, PartialEq, Eq, Structural)]
pub enum GrammarError {
    /// The part before the separators holds more than one `@`.
    RepeatedAt,
}

/// Where the host part of a trimmed line ends: at the first separator
/// present, else at the end of the line.
pub open spec fn host_part_end(t: Seq<char>) -> int {
    match (find(t, PASS_SEPARATOR@), find(t, TUBE_NAME_SEPARATOR@)) {
        (Some(p), Some(g)) => if p <= g {
            p
        } else {
            g
        },
        (Some(p), None) => p,
        (None, Some(g)) => g,
        (None, None) => t.len() as int,
    }
}

/// The part of a trimmed line that names user and host.
pub open spec fn host_part(t: Seq<char>) -> Seq<char> {
    t.subrange(0, host_part_end(t))
}

/// The password segment of a trimmed line: what stands behind the first
/// ` | `, up to the first ` > ` or to the end of the line. It is empty
/// where the ` > ` does not come behind it.
pub open spec fn password_segment(t: Seq<char>) -> Seq<char> {
    match find(t, PASS_SEPARATOR@) {
        Some(p) => {
            let start = p + PASS_SEPARATOR@.len();
            let end = match find(t, TUBE_NAME_SEPARATOR@) {
                Some(g) => g,
                None => t.len() as int,
            };
            if start <= end {
                t.subrange(start, end)
            } else {
                Seq::empty()
            }
        },
        None => Seq::empty(),
    }
}

/// The tube segment of a trimmed line: what stands behind the first ` > `.
pub open spec fn tube_segment(t: Seq<char>) -> Seq<char> {
    match find(t, TUBE_NAME_SEPARATOR@) {
        Some(g) => t.subrange(g + TUBE_NAME_SEPARATOR@.len(), t.len() as int),
        None => Seq::empty(),
    }
}

/// An empty segment is absent.
pub open spec fn filled(s: Seq<char>) -> Option<Seq<char>> {
    if s.len() == 0 {
        None
    } else {
        Some(s)
    }
}

/// User and password as the text before `@` gives them, `piped` being the
/// password of the password segment. Before the first `:` stands the user,
/// behind it the password, which ends at the next `:`.
pub open spec fn credentials(left: Seq<char>, piped: Option<Seq<char>>) -> (
    Option<Seq<char>>,
    Option<Seq<char>>,
) {
    match find(left, seq![':']) {
        Some(c) => {
            let rest = left.subrange(c + 1, left.len() as int);
            let inline = match find(rest, seq![':']) {
                Some(d) => rest.subrange(0, d),
                None => rest,
            };
            (
                filled(left.subrange(0, c)),
                if piped is Some {
                    piped
                } else {
                    filled(inline)
                },
            )
        },
        None => (Some(left), piped),
    }
}

/// The host that the parts of a trimmed line give before user and
/// address are told apart.
pub open spec fn initial_host(t: Seq<char>) -> HostView {
    HostView {
        host: host_part(t),
        user: None,
        pass: filled(password_segment(t)),
        tube: filled(tube_segment(t)),
        env: None,
        sudo: false,
    }
}

/// The host once user and address are told apart: what stands behind the
/// `@` is the address, what stands before it gives user and password. An
/// address without `@` stays as it is; more than one `@` is not admitted.
pub open spec fn user_split(h: HostView) -> Result<HostView, GrammarError> {
    match find(h.host, seq!['@']) {
        None => Ok(h),
        Some(a) => if find_from(h.host, seq!['@'], a + 1) is Some {
            Err(GrammarError::RepeatedAt)
        } else {
            let found = credentials(h.host.subrange(0, a), h.pass);
            Ok(
                HostView {
                    host: h.host.subrange(a + 1, h.host.len() as int),
                    user: found.0,
                    pass: found.1,
                    ..h
                },
            )
        },
    }
}

/// What a host line means.
pub open spec fn host_record(line: Seq<char>) -> Result<HostView, GrammarError> {
    user_split(initial_host(trim(line)))
}

/// The positions of the first ` | ` and of the first ` > ` in a line.
fn separator_positions(line: &Vec<char>) -> (r: (Option<usize>, Option<usize>))
    ensures
        match r.0 {
            Some(p) => find(line@, PASS_SEPARATOR@) == Some(p as int) && p + 3 <= line.len(),
            None => find(line@, PASS_SEPARATOR@) is None,
        },
        match r.1 {
            Some(g) => find(line@, TUBE_NAME_SEPARATOR@) == Some(g as int) && g + 3 <= line.len(),
            None => find(line@, TUBE_NAME_SEPARATOR@) is None,
        },
        PASS_SEPARATOR@.len() == 3,
        TUBE_NAME_SEPARATOR@.len() == 3,
{
    proof {
        reveal_strlit(" | ");
        reveal_strlit(" > ");
    }
    let pass_sep = chars_of(PASS_SEPARATOR);
    let tube_sep = chars_of(TUBE_NAME_SEPARATOR);
    (find_index(line, &pass_sep, 0), find_index(line, &tube_sep, 0))
}

/// The three parts of a trimmed line: host part, password segment and
/// tube segment.
pub fn parse_host_details(line: &Vec<char>) -> (r: (String, String, String))
    ensures
        r.0@ == host_part(line@),
        r.1@ == password_segment(line@),
        r.2@ == tube_segment(line@),
{
    let n: usize = line.len();
    let seps = separator_positions(line);
    let part_end: usize = match seps {
        (Some(p), Some(g)) => if p <= g {
            p
        } else {
            g
        },
        (Some(p), None) => p,
        (None, Some(g)) => g,
        (None, None) => n,
    };
    let password: String = match seps.0 {
        Some(p) => {
            let end: usize = match seps.1 {
                Some(g) => g,
                None => n,
            };
            if p + 3 <= end {
                string_of(line, p + 3, end)
            } else {
                String::new()
            }
        },
        None => String::new(),
    };
    let tube: String = match seps.1 {
        Some(g) => string_of(line, g + 3, n),
        None => String::new(),
    };
    (string_of(line, 0, part_end), password, tube)
}

/// The host that the parts of a line give: the address, and the password
/// and tube name where they are not empty.
pub fn build_initial_host(new_host: String, password: String, tube: String) -> (r: Host)
    ensures
        r@ == (HostView {
            host: new_host@,
            user: None,
            pass: filled(password@),
            tube: filled(tube@),
            env: None,
            sudo: false,
        }),
{
    Host {
        host: new_host,
        user: None,
        pass: if password.as_str().unicode_len() == 0 {
            None
        } else {
            Some(password)
        },
        tube: if tube.as_str().unicode_len() == 0 {
            None
        } else {
            Some(tube)
        },
        env: None,
        sudo: false,
    }
}

fn filled_text(chars: &Vec<char>, from: usize, to: usize) -> (r: Option<String>)
    requires
        from <= to <= chars.len(),
    ensures
        r.deep_view() == filled(chars@.subrange(from as int, to as int)),
{
    if from == to {
        None
    } else {
        Some(string_of(chars, from, to))
    }
}

/// User and password as the text before `@` gives them.
fn split_credentials(left: &Vec<char>, piped: Option<String>) -> (r: (
    Option<String>,
    Option<String>,
))
    ensures
        (r.0.deep_view(), r.1.deep_view()) == credentials(left@, piped.deep_view()),
{
    let colon: Vec<char> = vec![':'];
    assert(colon@ =~= seq![':']);
    match find_index(left, &colon, 0) {
        Some(c) => {
            let rest = sub_chars(left, c + 1, left.len());
            let inline = match find_index(&rest, &colon, 0) {
                Some(d) => filled_text(&rest, 0, d),
                None => {
                    assert(rest@.subrange(0, rest@.len() as int) =~= rest@);
                    filled_text(&rest, 0, rest.len())
                },
            };
            let user = filled_text(left, 0, c);
            let pass = if piped.is_some() {
                piped
            } else {
                inline
            };
            (user, pass)
        },
        None => {
            assert(left@.subrange(0, left@.len() as int) =~= left@);
            (Some(string_of(left, 0, left.len())), piped)
        },
    }
}

/// Tells user and address apart in a host whose address may still hold
/// both, as in `user:password@address`.
///
/// Fails, and leaves the host as it was, where the address holds more
/// than one `@`.
pub fn process_user_and_host(host_details: &mut Host) -> (r: Result<(), GrammarError>)
    ensures
        match user_split(old(host_details)@) {
            Ok(h) => r is Ok && final(host_details)@ == h,
            Err(e) => r == Err::<(), GrammarError>(e) && final(host_details)@ == old(
                host_details,
            )@,
        },
{
    let part = chars_of(host_details.host.as_str());
    let at: Vec<char> = vec!['@'];
    assert(at@ =~= seq!['@']);
    match find_index(&part, &at, 0) {
        None => Ok(()),
        Some(a) => {
            if find_index(&part, &at, a + 1).is_some() {
                return Err(GrammarError::RepeatedAt);
            }
            let left = sub_chars(&part, 0, a);
            let piped = host_details.pass.clone();
            let found = split_credentials(&left, piped);
            host_details.host = string_of(&part, a + 1, part.len());
            host_details.user = found.0;
            host_details.pass = found.1;
            Ok(())
        },
    }
}

/// Reads one host line.
///
/// Fails exactly on a line whose host part holds more than one `@`. The
/// password is taken as written: one given as a shell substitution is still
/// to be resolved.
pub fn check_hosts_form(host: &str) -> (r: Result<Host, GrammarError>)
    ensures
        match r {
            Ok(h) => host_record(host@) == Ok::<HostView, GrammarError>(h@),
            Err(e) => host_record(host@) == Err::<HostView, GrammarError>(e),
        },
{
    let line = trimmed_chars(host);
    let parts = parse_host_details(&line);
    let mut host_details = build_initial_host(parts.0, parts.1, parts.2);
    match process_user_and_host(&mut host_details) {
        Ok(_) => Ok(host_details),
        Err(e) => Err(e),
    }
}

/// A line that holds neither separator nor `@` names a host and nothing
/// else: the host is the trimmed line, no password and no tube are set.
pub proof fn lemma_plain_line(line: Seq<char>)
    requires
        !contains(line, PASS_SEPARATOR@),
        !contains(line, TUBE_NAME_SEPARATOR@),
        !contains(line, seq!['@']),
    ensures
        host_record(line) == Ok::<HostView, GrammarError>(
            HostView {
                host: trim(line),
                user: None,
                pass: None,
                tube: None,
                env: None,
                sudo: false,
            },
        ),
{
    let t = trim(line);
    lemma_trim_bounds(line);
    lemma_absent_in_part(line, PASS_SEPARATOR@, trim_start(line), trim_end(line));
    lemma_absent_in_part(line, TUBE_NAME_SEPARATOR@, trim_start(line), trim_end(line));
    lemma_absent_in_part(line, seq!['@'], trim_start(line), trim_end(line));
    assert(host_part(t) =~= t);
}

/// A password given behind ` | ` wins over one given before `@`: where
/// the password segment is not empty, it is the password of the record.
pub proof fn lemma_piped_password_wins(line: Seq<char>)
    requires
        host_record(line) is Ok,
        password_segment(trim(line)).len() > 0,
    ensures
        host_record(line)->Ok_0.pass == Some(password_segment(trim(line))),
{
}

/// The host part of a trimmed line is empty only where the line is.
pub proof fn lemma_host_part_filled(line: Seq<char>)
    requires
        trim(line).len() > 0,
    ensures
        host_part(trim(line)).len() > 0,
{
    let t = trim(line);
    reveal_strlit(" | ");
    reveal_strlit(" > ");
    lemma_trim_bounds(line);
    lemma_find_from(t, PASS_SEPARATOR@, 0);
    lemma_find_from(t, TUBE_NAME_SEPARATOR@, 0);
    assert(!occurs_at(t, PASS_SEPARATOR@, 0)) by {
        if occurs_at(t, PASS_SEPARATOR@, 0) {
            assert(t.subrange(0, 3)[0] == ' ');
        }
    }
    assert(!occurs_at(t, TUBE_NAME_SEPARATOR@, 0)) by {
        if occurs_at(t, TUBE_NAME_SEPARATOR@, 0) {
            assert(t.subrange(0, 3)[0] == ' ');
        }
    }
    assert(host_part_end(t) > 0);
}

/// When the host of a record is empty: on a line that holds nothing but
/// whitespace, and on a line whose host part ends with its `@`. Every
/// other line that can be read names a host.
pub proof fn lemma_host_empty(line: Seq<char>)
    requires
        host_record(line) is Ok,
    ensures
        host_record(line)->Ok_0.host.len() == 0 <==> (trim(line).len() == 0 || (host_part(
            trim(line),
        ).len() > 0 && host_part(trim(line)).last() == '@')),
{
    let t = trim(line);
    let part = host_part(t);
    let at = seq!['@'];
    reveal_strlit(" | ");
    reveal_strlit(" > ");
    lemma_trim_bounds(line);
    lemma_find_from(part, at, 0);
    if t.len() > 0 {
        lemma_host_part_filled(line);
    } else {
        assert(part.len() == 0);
    }
    let last = part.len() - 1;
    if part.len() > 0 && part.last() == '@' {
        assert(part.subrange(last, last + 1) =~= at);
        assert(occurs_at(part, at, last));
    }
    match find(part, at) {
        None => {
            assert(host_record(line)->Ok_0.host == part);
        },
        Some(a) => {
            lemma_find_from(part, at, a + 1);
            assert(part.subrange(a, a + 1)[0] == '@');
            assert(part[a] == '@');
            assert(host_record(line)->Ok_0.host == part.subrange(a + 1, part.len() as int));
        },
    }
}

/// How a shell command ended, as far as the planner needs to know.
#[derive(Debug, PartialEq, Eq)]
pub enum ShellOutcome {
    /// The command ran to its end.
    Finished { success: bool, stdout: Vec<u8> },
    /// The command could not be started.
    NotStarted { reason: String },
}

/// A command's end as plain values.
pub enum OutcomeView {
    Finished { success: bool, stdout: Seq<u8> },
    NotStarted { reason: Seq<char> },
}

impl View for ShellOutcome {
    type V = OutcomeView;

    open spec fn view(&self) -> OutcomeView {
        match *self {
            ShellOutcome::Finished { success, stdout } => OutcomeView::Finished {
                success,
                stdout: stdout@,
            },
            ShellOutcome::NotStarted { reason } => OutcomeView::NotStarted { reason: reason@ },
        }
    }
}

/// Why a value given as a shell substitution was not resolved.
#[derive(Debug, PartialEq, Eq)]
pub enum ShellResolveError {
    MissingPrefix,
    MissingSuffix,
    CommandExecution { cmd: String, source: String, trace_id: &'static str },
}

/// A failed resolution as plain values.
pub enum ResolveFailure {
    MissingPrefix,
    MissingSuffix,
    CommandExecution { cmd: Seq<char>, source: Seq<char>, trace_id: Seq<char> },
}

/// The mark by which a failed command is found again in the logs.
pub const COMMAND_TRACE_ID: &'static str = "6928F3B4-0D17-45FB-9633-DABA63E163A1";

impl View for ShellResolveError {
    type V = ResolveFailure;

    open spec fn view(&self) -> ResolveFailure {
        match *self {
            ShellResolveError::MissingPrefix => ResolveFailure::MissingPrefix,
            ShellResolveError::MissingSuffix => ResolveFailure::MissingSuffix,
            ShellResolveError::CommandExecution { cmd, source, trace_id } => {
                ResolveFailure::CommandExecution {
                    cmd: cmd@,
                    source: source@,
                    trace_id: trace_id@,
                }
            },
        }
    }
}

/// The error in words.
pub open spec fn failure_text(e: ResolveFailure) -> Seq<char> {
    match e {
        ResolveFailure::MissingPrefix => "Missing $( prefix"@,
        ResolveFailure::MissingSuffix => "Missing ) suffix"@,
        ResolveFailure::CommandExecution { cmd, .. } => "Failed to run command: "@ + cmd,
    }
}

impl ShellResolveError {
    /// The error for a command that could not be started.
    pub fn command_error(cmd: &str, source: &str) -> (r: Self)
        ensures
            r@ == (ResolveFailure::CommandExecution {
                cmd: cmd@,
                source: source@,
                trace_id: COMMAND_TRACE_ID@,
            }),
    {
        ShellResolveError::CommandExecution {
            cmd: String::from_str(cmd),
            source: String::from_str(source),
            trace_id: COMMAND_TRACE_ID,
        }
    }

    /// The error in words.
    pub fn to_string(&self) -> (r: String)
        ensures
            r@ == failure_text(self@),
    {
        match self {
            ShellResolveError::MissingPrefix => String::from_str("Missing $( prefix"),
            ShellResolveError::MissingSuffix => String::from_str("Missing ) suffix"),
            ShellResolveError::CommandExecution { cmd, .. } => {
                let mut r = String::from_str("Failed to run command: ");
                r.append(cmd.as_str());
                r
            },
        }
    }
}

/// `s` has the form of a shell substitution: it begins with `$(` and ends
/// with `)`. What stands between is not examined.
pub open spec fn is_substitution(s: Seq<char>) -> bool {
    starts_with(s, "$("@) && ends_with(s, ")"@)
}

/// The command of a substitution: what stands between `$(` and `)`.
pub open spec fn command_text(s: Seq<char>) -> Seq<char> {
    s.subrange(2, s.len() - 1)
}

/// The command that `value` names, or why it names none.
pub open spec fn command_of(value: Seq<char>) -> Result<Seq<char>, ResolveFailure> {
    if !starts_with(value, "$("@) {
        Err(ResolveFailure::MissingPrefix)
    } else if !ends_with(value, ")"@) {
        Err(ResolveFailure::MissingSuffix)
    } else {
        Ok(command_text(value))
    }
}

/// The bytes that stay in a command's output: the graphic ASCII characters
/// and the ASCII whitespace.
pub open spec fn keeps_byte(b: u8) -> bool {
    (0x21 <= b <= 0x7e) || b == 0x20 || b == 0x09 || b == 0x0a || b == 0x0c || b == 0x0d
}

/// The output as text, without the bytes that do not stay.
pub open spec fn printable(bytes: Seq<u8>) -> Seq<char>
    decreases bytes.len(),
{
    if bytes.len() == 0 {
        Seq::empty()
    } else if keeps_byte(bytes.last()) {
        printable(bytes.drop_last()).push(bytes.last() as char)
    } else {
        printable(bytes.drop_last())
    }
}

/// The value that a command's output stands for.
pub open spec fn resolved_text(stdout: Seq<u8>) -> Seq<char> {
    trim(printable(stdout))
}

/// What resolving `value` gives when its command ended as `outcome` says:
/// the output of a command that ran, whatever its exit status.
pub open spec fn resolution(value: Seq<char>, outcome: OutcomeView) -> Result<
    Seq<char>,
    ResolveFailure,
> {
    match command_of(value) {
        Err(e) => Err(e),
        Ok(cmd) => match outcome {
            OutcomeView::Finished { stdout, .. } => Ok(resolved_text(stdout)),
            OutcomeView::NotStarted { reason } => Err(
                ResolveFailure::CommandExecution {
                    cmd,
                    source: reason,
                    trace_id: COMMAND_TRACE_ID@,
                },
            ),
        },
    }
}

/// Whether `cmd` has the form of a shell substitution.
pub fn is_shell(cmd: &str) -> (r: bool)
    ensures
        r == is_substitution(cmd@),
{
    let chars = chars_of(cmd);
    let open = chars_of("$(");
    let close = chars_of(")");
    has_prefix(&chars, &open) && has_suffix(&chars, &close)
}

/// The command that a substitution names.
///
/// Fails with `MissingPrefix` where `value` does not begin with `$(`, and
/// with `MissingSuffix` where it begins so and does not end with `)`.
pub fn shell_command(value: &str) -> (r: Result<String, ShellResolveError>)
    ensures
        match r {
            Ok(c) => command_of(value@) == Ok::<Seq<char>, ResolveFailure>(c@),
            Err(e) => command_of(value@) == Err::<Seq<char>, ResolveFailure>(e@),
        },
{
    proof {
        reveal_strlit("$(");
        reveal_strlit(")");
    }
    let chars = chars_of(value);
    let open = chars_of("$(");
    let close = chars_of(")");
    if !has_prefix(&chars, &open) {
        return Err(ShellResolveError::MissingPrefix);
    }
    if !has_suffix(&chars, &close) {
        return Err(ShellResolveError::MissingSuffix);
    }
    assert(chars@.len() >= 3) by {
        assert(chars@.subrange(0, 2)[1] == '(');
        if chars@.len() == 2 {
            assert(chars@.subrange(1, 2)[0] == ')');
        }
    }
    Ok(string_of(&chars, 2, chars.len() - 1))
}

/// The text of a command's output: the bytes that are graphic ASCII
/// characters or ASCII whitespace, in order; every other byte is dropped.
pub fn filter_non_printable(input: &[u8]) -> (r: String)
    ensures
        r@ == printable(input@),
{
    let mut filtered = String::new();
    let mut i: usize = 0;
    while i < input.len()
        invariant
            i <= input.len(),
            filtered@ == printable(input@.take(i as int)),
        decreases input.len() - i,
    {
        let b: u8 = input[i];
        assert(input@.take(i + 1).drop_last() =~= input@.take(i as int));
        if (0x21 <= b && b <= 0x7e) || b == 0x20 || b == 0x09 || b == 0x0a || b == 0x0c || b
            == 0x0d {
            filtered.push(b as char);
        }
        i += 1;
    }
    assert(input@.take(input@.len() as int) =~= input@);
    filtered
}

/// Resolves a value given as a shell substitution, `outcome` being how the
/// command that `shell_command` names ended.
///
/// The result is the command's output without the bytes that are neither
/// graphic ASCII nor ASCII whitespace, trimmed. It fails where the value
/// lacks the markers, and where the command could not be started.
pub fn resolve_shell(value: &str, outcome: &ShellOutcome) -> (r: Result<
    String,
    ShellResolveError,
>)
    ensures
        match r {
            Ok(v) => resolution(value@, outcome@) == Ok::<Seq<char>, ResolveFailure>(v@),
            Err(e) => resolution(value@, outcome@) == Err::<Seq<char>, ResolveFailure>(e@),
        },
{
    let command = match shell_command(value) {
        Ok(c) => c,
        Err(e) => {
            return Err(e);
        },
    };
    match outcome {
        ShellOutcome::NotStarted { reason } => Err(
            ShellResolveError::command_error(command.as_str(), reason.as_str()),
        ),
        ShellOutcome::Finished { stdout, .. } => {
            let clean = filter_non_printable(stdout.as_slice());
            let chars = chars_of(clean.as_str());
            let bounds = trim_bounds(&chars);
            Ok(string_of(&chars, bounds.0, bounds.1))
        },
    }
}

/// The command that has to run before a password is known, if there is one.
pub open spec fn pending_command(pass: Option<Seq<char>>) -> Option<Seq<char>> {
    match pass {
        Some(p) => if is_substitution(p) {
            Some(command_text(p))
        } else {
            None
        },
        None => None,
    }
}

/// The host once its password is resolved, `outcome` being how the
/// password's command ended. A password that is no substitution stays.
pub open spec fn password_resolved(host: HostView, outcome: OutcomeView) -> Result<
    HostView,
    ResolveFailure,
> {
    match host.pass {
        Some(p) => if is_substitution(p) {
            match resolution(p, outcome) {
                Ok(v) => Ok(HostView { pass: Some(v), ..host }),
                Err(e) => Err(e),
            }
        } else {
            Ok(host)
        },
        None => Ok(host),
    }
}

/// The command that has to run before the password of `host` is known.
pub fn pending_password(host: &Host) -> (r: Option<String>)
    ensures
        r.deep_view() == pending_command(host@.pass),
{
    match &host.pass {
        Some(p) => match shell_command(p.as_str()) {
            Ok(c) => Some(c),
            Err(_) => None,
        },
        None => None,
    }
}

/// Puts the resolved password in the place of one given as a shell
/// substitution, `outcome` being how its command ended.
///
/// A failed resolution is an error and leaves the host as it was.
pub fn resolve_shell_password(host_details: &mut Host, outcome: &ShellOutcome) -> (r: Result<
    (),
    ShellResolveError,
>)
    ensures
        match password_resolved(old(host_details)@, outcome@) {
            Ok(h) => r is Ok && final(host_details)@ == h,
            Err(e) => r is Err && r->Err_0@ == e && final(host_details)@ == old(host_details)@,
        },
{
    let resolved: Option<Result<String, ShellResolveError>> = match &host_details.pass {
        Some(p) => if is_shell(p.as_str()) {
            Some(resolve_shell(p.as_str(), outcome))
        } else {
            None
        },
        None => None,
    };
    match resolved {
        Some(Ok(v)) => {
            host_details.pass = Some(v);
            Ok(())
        },
        Some(Err(e)) => Err(e),
        None => Ok(()),
    }
}

/// The hosts that the lines from position `i` on give: blank lines are
/// passed over, every other line is read as a host line, and the first
/// line that cannot be read ends the reading.
pub open spec fn listed_hosts(lines: Seq<Seq<char>>, i: int) -> Result<Seq<HostView>, GrammarError>
    decreases lines.len() - i,
{
    if i < 0 || i >= lines.len() {
        Ok(Seq::empty())
    } else if trim(lines[i]).len() == 0 {
        listed_hosts(lines, i + 1)
    } else {
        match host_record(lines[i]) {
            Err(e) => Err(e),
            Ok(h) => match listed_hosts(lines, i + 1) {
                Ok(rest) => Ok(seq![h] + rest),
                Err(e) => Err(e),
            },
        }
    }
}

/// The hosts that an inventory lists, one per line.
pub open spec fn inventory_hosts(text: Seq<char>) -> Result<Seq<HostView>, GrammarError> {
    listed_hosts(split(text, "\n"@), 0)
}

/// `found`, then what `rest` gives.
pub open spec fn hosts_then(found: Seq<HostView>, rest: Result<Seq<HostView>, GrammarError>) -> Result<
    Seq<HostView>,
    GrammarError,
> {
    match rest {
        Ok(more) => Ok(found + more),
        Err(e) => Err(e),
    }
}

/// Reads the hosts that an inventory lists, one per line, in order and
/// without removing repetitions. Blank lines are passed over.
///
/// Fails on the first line that is no host line.
pub fn hosts_from_listing(text: &str) -> (r: Result<Vec<Host>, GrammarError>)
    ensures
        match r {
            Ok(hosts) => inventory_hosts(text@) == Ok::<Seq<HostView>, GrammarError>(
                hosts.deep_view(),
            ),
            Err(e) => inventory_hosts(text@) == Err::<Seq<HostView>, GrammarError>(e),
        },
{
    let lines = split_text(text, "\n");
    let ghost all = lines.deep_view();
    let mut out: Vec<Host> = Vec::new();
    let mut i: usize = 0;
    assert(out.deep_view() =~= Seq::<HostView>::empty());
    assert(hosts_then(out.deep_view(), listed_hosts(all, 0)) == listed_hosts(all, 0)) by {
        match listed_hosts(all, 0) {
            Ok(more) => {
                assert(out.deep_view() + more =~= more);
            },
            Err(_) => {},
        }
    }
    while i < lines.len()
        invariant
            i <= lines.len(),
            all == lines.deep_view(),
            hosts_then(out.deep_view(), listed_hosts(all, i as int)) == inventory_hosts(text@),
        decreases lines.len() - i,
    {
        let ghost before = out.deep_view();
        assert(all[i as int] == lines@[i as int]@);
        let blank: bool = trimmed_chars(lines[i].as_str()).len() == 0;
        if !blank {
            match check_hosts_form(lines[i].as_str()) {
                Ok(h) => {
                    out.push(h);
                    proof {
                        assert(out.deep_view() =~= before.push(h@));
                        match listed_hosts(all, i + 1) {
                            Ok(rest) => {
                                assert(before + (seq![h@] + rest) =~= before.push(h@) + rest);
                            },
                            Err(_) => {},
                        }
                    }
                },
                Err(e) => {
                    return Err(e);
                },
            }
        }
        i += 1;
    }
    assert(out.deep_view() + Seq::<HostView>::empty() =~= out.deep_view());
    Ok(out)
}

/// The inventory script of a network, where it declares one: a network
/// whose script is empty declares none.
pub fn inventory_script(network: &Network) -> (r: Option<&String>)
    ensures
        r.deep_view() == filled(network@.inventory),
{
    if network.inventory.as_str().unicode_len() == 0 {
        None
    } else {
        Some(&network.inventory)
    }
}

/// The text that a sequence of bytes decodes to when every part that is
/// not UTF-8 is replaced by the replacement character.
pub uninterp spec fn lossy_text(bytes: Seq<u8>) -> Seq<char>;

/// `String::from_utf8_lossy`: the bytes as text, invalid parts replaced.
#[verifier::external_body]
fn decode_lossy(bytes: &[u8]) -> (r: String)
    ensures
        r@ == lossy_text(bytes@),
{
    String::from_utf8_lossy(bytes).into_owned()
}

/// Why an inventory gave no hosts.
#[derive(Debug, PartialEq, Eq)]
pub enum InventoryError {
    /// The inventory script could not be started.
    NotStarted { reason: String },
    /// The inventory script ended with a status other than success.
    Failed,
    /// The script's output holds a line that is no host line.
    Grammar { error: GrammarError },
}

/// A failed inventory as plain values.
pub enum InventoryFailure {
    NotStarted { reason: Seq<char> },
    Failed,
    Grammar { error: GrammarError },
}

impl View for InventoryError {
    type V = InventoryFailure;

    open spec fn view(&self) -> InventoryFailure {
        match *self {
            InventoryError::NotStarted { reason } => InventoryFailure::NotStarted {
                reason: reason@,
            },
            InventoryError::Failed => InventoryFailure::Failed,
            InventoryError::Grammar { error } => InventoryFailure::Grammar { error },
        }
    }
}

/// The hosts that an inventory script gives, `outcome` being how it ended:
/// those that its output lists, if it ran and succeeded.
pub open spec fn inventory_of(outcome: OutcomeView) -> Result<Seq<HostView>, InventoryFailure> {
    match outcome {
        OutcomeView::NotStarted { reason } => Err(InventoryFailure::NotStarted { reason }),
        OutcomeView::Finished { success, stdout } => if !success {
            Err(InventoryFailure::Failed)
        } else {
            match inventory_hosts(lossy_text(stdout)) {
                Ok(hosts) => Ok(hosts),
                Err(error) => Err(InventoryFailure::Grammar { error }),
            }
        },
    }
}

/// Reads the hosts that an inventory script printed, `outcome` being how
/// the script ended.
///
/// Fails where the script did not start or did not succeed, and on the
/// first line of its output that is no host line.
pub fn parse_inventory(outcome: &ShellOutcome) -> (r: Result<Vec<Host>, InventoryError>)
    ensures
        match r {
            Ok(hosts) => inventory_of(outcome@) == Ok::<Seq<HostView>, InventoryFailure>(
                hosts.deep_view(),
            ),
            Err(e) => inventory_of(outcome@) == Err::<Seq<HostView>, InventoryFailure>(e@),
        },
{
    match outcome {
        ShellOutcome::NotStarted { reason } => Err(
            InventoryError::NotStarted { reason: reason.clone() },
        ),
        ShellOutcome::Finished { success, stdout } => {
            if !*success {
                return Err(InventoryError::Failed);
            }
            let text = decode_lossy(stdout.as_slice());
            match hosts_from_listing(text.as_str()) {
                Ok(hosts) => Ok(hosts),
                Err(error) => Err(InventoryError::Grammar { error }),
            }
        },
    }
}

/// `s` with every `~` replaced by `home`.
pub open spec fn tilde_replaced(s: Seq<char>, home: Seq<char>) -> Seq<char>
    decreases s.len(),
{
    if s.len() == 0 {
        Seq::empty()
    } else if s.last() == '~' {
        tilde_replaced(s.drop_last(), home) + home
    } else {
        tilde_replaced(s.drop_last(), home).push(s.last())
    }
}

/// The path that `path` stands for: a leading `.` stands for `curr_dir`,
/// and in a path that begins with `~/` every `~` stands for `home_dir`.
/// Any other path gives the empty text.
pub open spec fn resolved_path(path: Seq<char>, curr_dir: Seq<char>, home_dir: Seq<char>) -> Seq<
    char,
> {
    if starts_with(path, "~/"@) {
        tilde_replaced(path, home_dir)
    } else if starts_with(path, "."@) {
        curr_dir + path.subrange(1, path.len() as int)
    } else {
        Seq::empty()
    }
}

/// Resolves a path given on the command line against the current
/// directory and the home directory.
pub fn resolve_path(path: &str, curr_dir: &str, home_dir: &str) -> (r: String)
    ensures
        r@ == resolved_path(path@, curr_dir@, home_dir@),
{
    proof {
        reveal_strlit("~/");
        reveal_strlit(".");
    }
    let chars = chars_of(path);
    let tilde = chars_of("~/");
    let dot = chars_of(".");
    if has_prefix(&chars, &tilde) {
        let mut r = String::new();
        let mut i: usize = 0;
        while i < chars.len()
            invariant
                i <= chars.len(),
                r@ == tilde_replaced(chars@.take(i as int), home_dir@),
            decreases chars.len() - i,
        {
            assert(chars@.take(i + 1).drop_last() =~= chars@.take(i as int));
            if chars[i] == '~' {
                r.append(home_dir);
            } else {
                r.push(chars[i]);
            }
            i += 1;
        }
        assert(chars@.take(chars@.len() as int) =~= chars@);
        r
    } else if has_prefix(&chars, &dot) {
        let mut r = String::from_str(curr_dir);
        let rest = string_of(&chars, 1, chars.len());
        r.append(rest.as_str());
        r
    } else {
        String::new()
    }
}

} // verus!

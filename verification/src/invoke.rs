//! What the client program decides around its sessions: what to ask for, when to ask for
//! a secret, and what to tell the user.

use crate::bytes::bits_of_i32;
use crate::client;
use crate::client::{ClientRequest, ClientRequestView, SessionOutcome, SessionOutcomeView};
use crate::error::{CoreError, CoreErrorView, TransportError};
use crate::options;
use crate::options::{
    ClientOptions, ClientOptionsView, Flag, ItemView, OptionsError, Tool, Word,
};
use crate::proto::SessionType;
use crate::run;
use crate::run::determine_session_type;
use crate::text;
use crate::text::{chars_of, join};
use vstd::prelude::*;
use vstd::string::*;

verus! {

/// The names of the variables that the client passes on from its own environment, so
/// that the program fits the caller's terminal and language.
pub open spec fn passed_names() -> Seq<Seq<char>> {
    seq!["TERM"@, "LANG"@, "LC_ALL"@, "LC_CTYPE"@, "LC_MESSAGES"@, "COLORTERM"@]
}

/// An environment entry.
pub open spec fn entry(name: Seq<char>, value: Seq<char>) -> Seq<char> {
    name + "="@ + value
}

/// The entries for those variables that have a value.
pub open spec fn entries(names: Seq<Seq<char>>, values: Seq<Option<Seq<char>>>) -> Seq<Seq<char>>
    decreases names.len(),
{
    if names.len() == 0 {
        Seq::empty()
    } else {
        let before = entries(names.drop_last(), values.take(names.len() - 1));
        match values[names.len() - 1] {
            Some(value) => before.push(entry(names.last(), value)),
            None => before,
        }
    }
}

/// The mathematical values of a list of optional texts.
pub open spec fn optional_texts(list: Seq<Option<String>>) -> Seq<Option<Seq<char>>> {
    list.map_values(|v: Option<String>| optional_text(v))
}

/// The mathematical value of an optional text.
pub open spec fn optional_text(v: Option<String>) -> Option<Seq<char>> {
    match v {
        Some(s) => Some(s@),
        None => None,
    }
}

/// The names of the variables that the client passes on.
pub fn default_env() -> (names: [&'static str; 6])
    ensures
        names@.map_values(|s: &'static str| s@) == passed_names(),
{
    let names: [&'static str; 6] = [
        "TERM",
        "LANG",
        "LC_ALL",
        "LC_CTYPE",
        "LC_MESSAGES",
        "COLORTERM",
    ];
    assert(names@.map_values(|s: &'static str| s@) =~= passed_names());
    names
}

/// Appends the variables that the client passes on to those that the user gave. The
/// values are in the order of [`default_env`]; a variable without one is left out.
pub fn append_default_env(env: &mut Vec<String>, values: &Vec<Option<String>>)
    requires
        values@.len() == 6,
    ensures
        text::texts(final(env)@) == text::texts(old(env)@) + entries(
            passed_names(),
            optional_texts(values@),
        ),
{
    let names = default_env();
    let ghost all = optional_texts(values@);
    let ghost start = text::texts(env@);
    let mut i: usize = 0;
    assert(passed_names().take(0) =~= Seq::empty());
    assert(start + Seq::<Seq<char>>::empty() =~= start);
    while i < 6
        invariant
            i <= 6,
            values@.len() == 6,
            all == optional_texts(values@),
            names@.map_values(|s: &'static str| s@) == passed_names(),
            text::texts(env@) == start + entries(passed_names().take(i as int), all.take(i as int)),
        decreases 6 - i,
    {
        let ghost before = env@;
        let ghost names_now = passed_names().take(i + 1);
        assert(names_now.drop_last() =~= passed_names().take(i as int));
        assert(all.take(i + 1).take(i as int) =~= all.take(i as int));
        assert(names_now.last() == names@.map_values(|s: &'static str| s@)[i as int]);
        assert(all.take(i + 1)[i as int] == optional_text(values@[i as int]));
        match &values[i] {
            Some(value) => {
                let mut s = join(names[i], "=");
                s.append(value.as_str());
                env.push(s);
                assert(text::texts(env@) =~= text::texts(before).push(s@));
                assert(text::texts(env@) =~= start + entries(names_now, all.take(i + 1)));
            },
            None => {},
        }
        i = i + 1;
    }
    assert(passed_names().take(6) =~= passed_names());
    assert(all.take(6) =~= all);
}

/// What the client asks the daemon for. A shell takes the place of the program where
/// the user wants one; terminal dimensions go with an interactive session only.
pub open spec fn request_of(
    opts: ClientOptionsView,
    values: Seq<Option<Seq<char>>>,
    shell: Option<Seq<char>>,
    session_type: SessionType,
    winsize: Option<Seq<u16>>,
) -> ClientRequestView {
    ClientRequestView {
        args: if opts.shell {
            match shell {
                Some(shell) => seq![shell],
                None => seq!["sh"@],
            }
        } else {
            opts.args
        },
        env: opts.env + entries(passed_names(), values),
        session_type,
        winsize: if session_type == SessionType::Interactive {
            winsize
        } else {
            None
        },
    }
}

impl ClientOptions {
    /// The session type: the one that was forced, else the one that the terminals call for.
    pub fn session_type(&self, stdin_tty: bool, stdout_tty: bool) -> (t: SessionType)
        ensures
            t == match self@.session {
                Some(forced) => forced,
                None => run::session_type_by_terminal(stdin_tty, stdout_tty),
            },
    {
        match self.session {
            Some(forced) => forced,
            None => determine_session_type(stdin_tty, stdout_tty),
        }
    }

    /// What the client asks the daemon for. The values are those of the variables in
    /// [`default_env`], `shell` is the user's own shell, and `winsize` holds the
    /// dimensions of the user's terminal.
    pub fn into_request(
        self,
        values: &Vec<Option<String>>,
        shell: Option<String>,
        session_type: SessionType,
        winsize: Option<[u16; 4]>,
    ) -> (request: ClientRequest)
        requires
            values@.len() == 6,
        ensures
            request@ == request_of(
                self@,
                optional_texts(values@),
                optional_text(shell),
                session_type,
                match winsize {
                    Some(dims) => Some(dims@),
                    None => None,
                },
            ),
    {
        let mut env = self.env;
        append_default_env(&mut env, values);
        let args = if self.shell {
            let shell = match shell {
                Some(s) => s,
                None => "sh".to_owned(),
            };
            let list: Vec<String> = vec![shell];
            assert(text::texts(list@) =~= seq![shell@]);
            list
        } else {
            self.args
        };
        let winsize = if session_type == SessionType::Interactive {
            winsize
        } else {
            None
        };
        ClientRequest { args, env, session_type, winsize }
    }
}

/// A text without the line ends at its end.
pub open spec fn without_line_end(s: Seq<char>) -> Seq<char>
    decreases s.len(),
{
    if s.len() > 0 && (s.last() == '\r' || s.last() == '\n') {
        without_line_end(s.drop_last())
    } else {
        s
    }
}

/// The secret in a line that the user typed. Without a line, and with an empty one,
/// there is none.
pub open spec fn secret_of(line: Option<Seq<char>>) -> Option<Seq<char>> {
    match line {
        Some(s) => if without_line_end(s).len() == 0 {
            None
        } else {
            Some(without_line_end(s))
        },
        None => None,
    }
}

/// The secret in a line that the user typed.
pub fn secret_from_line(line: Option<&str>) -> (secret: Option<String>)
    ensures
        optional_text(secret) == secret_of(
            match line {
                Some(s) => Some(s@),
                None => None,
            },
        ),
{
    let s = match line {
        Some(s) => s,
        None => return None,
    };
    let chars = chars_of(s);
    let mut n: usize = chars.len();
    assert(s@.take(n as int) =~= s@);
    while n > 0 && (chars[n - 1] == '\r' || chars[n - 1] == '\n')
        invariant
            n <= chars@.len(),
            chars@ == s@,
            without_line_end(s@) == without_line_end(s@.take(n as int)),
        decreases n,
    {
        assert(s@.take(n as int).drop_last() =~= s@.take(n - 1));
        n = n - 1;
    }
    if n == 0 {
        return None;
    }
    let kept = s.substring_char(0, n);
    assert(kept@ =~= s@.take(n as int));
    Some(kept.to_owned())
}

/// The process status for an exit status: its low eight bits.
pub open spec fn low_byte(code: i32) -> u8 {
    (code as int % 256) as u8
}

/// What the client does after a session, or where none came about.
pub enum ClientAction {
    /// Tell the user something, if there is something to tell, and end with a status.
    End {
        /// What to tell the user.
        report: Option<String>,
        /// The process status.
        status: u8,
    },
    /// Show the prompt, let the user type a secret, and go on with
    /// [`after_prompt`].
    AskSecret(String),
}

/// A [`ClientAction`] as a mathematical value.
pub enum ClientActionView {
    End { report: Option<Seq<char>>, status: u8 },
    AskSecret(Seq<char>),
}

impl View for ClientAction {
    type V = ClientActionView;

    open spec fn view(&self) -> ClientActionView {
        match *self {
            ClientAction::End { report, status } => ClientActionView::End {
                report: optional_text(report),
                status,
            },
            ClientAction::AskSecret(prompt) => ClientActionView::AskSecret(prompt@),
        }
    }
}

/// What a session leads to, where `presented` tells whether a secret was presented in
/// it. The user is asked for a secret once at most.
pub open spec fn session_action(
    presented: bool,
    result: Result<SessionOutcomeView, CoreErrorView>,
) -> ClientActionView {
    match result {
        Ok(SessionOutcomeView::Exited(code)) => ClientActionView::End {
            report: None,
            status: low_byte(code),
        },
        Ok(SessionOutcomeView::Failed { code, message }) => ClientActionView::End {
            report: Some("capsudo: error: "@ + message),
            status: low_byte(code),
        },
        Ok(SessionOutcomeView::Unauthorized(prompt)) => if presented {
            ClientActionView::End { report: Some("capsudo: authentication failed"@), status: 1 }
        } else {
            ClientActionView::AskSecret(prompt)
        },
        Err(e) => ClientActionView::End { report: Some("capsudo: "@ + e.text()), status: 1 },
    }
}

/// The low eight bits of an exit status.
fn status_byte(code: i32) -> (b: u8)
    ensures
        b == low_byte(code),
{
    (bits_of_i32(code) % 256) as u8
}

/// What to do after a session in which a secret was presented or not.
pub fn after_session(presented: bool, result: Result<SessionOutcome, CoreError>) -> (action:
    ClientAction)
    ensures
        action@ == session_action(presented, client::outcome_result(result)),
{
    match result {
        Ok(SessionOutcome::Exited(code)) => ClientAction::End {
            report: None,
            status: status_byte(code),
        },
        Ok(SessionOutcome::Failed { code, message }) => ClientAction::End {
            report: Some(join("capsudo: error: ", message.as_str())),
            status: status_byte(code),
        },
        Ok(SessionOutcome::Unauthorized(prompt)) => {
            if presented {
                ClientAction::End {
                    report: Some("capsudo: authentication failed".to_owned()),
                    status: 1,
                }
            } else {
                ClientAction::AskSecret(prompt)
            }
        },
        Err(e) => {
            let words = e.message();
            ClientAction::End { report: Some(join("capsudo: ", words.as_str())), status: 1 }
        },
    }
}

/// What the client does after the user was asked for a secret.
pub enum PromptAction {
    /// Connect again, and present the secret.
    Retry(String),
    /// Tell the user this, and end with a status.
    End {
        /// What to tell the user.
        report: String,
        /// The process status.
        status: u8,
    },
}

/// A [`PromptAction`] as a mathematical value.
pub enum PromptActionView {
    Retry(Seq<char>),
    End { report: Seq<char>, status: u8 },
}

impl View for PromptAction {
    type V = PromptActionView;

    open spec fn view(&self) -> PromptActionView {
        match *self {
            PromptAction::Retry(secret) => PromptActionView::Retry(secret@),
            PromptAction::End { report, status } => PromptActionView::End {
                report: report@,
                status,
            },
        }
    }
}

/// What to do after the user was asked for a secret and typed `line`, or nothing.
pub fn after_prompt(line: Option<&str>) -> (action: PromptAction)
    ensures
        action@ == match secret_of(
            match line {
                Some(s) => Some(s@),
                None => None,
            },
        ) {
            Some(secret) => PromptActionView::Retry(secret),
            None => PromptActionView::End {
                report: "capsudo: a secret is required but none was provided"@,
                status: 1,
            },
        },
{
    match secret_from_line(line) {
        Some(secret) => PromptAction::Retry(secret),
        None => PromptAction::End {
            report: "capsudo: a secret is required but none was provided".to_owned(),
            status: 1,
        },
    }
}

/// What to do where no connection to the daemon could be made.
pub fn after_failed_connect(socket: &str, cause: &TransportError) -> (action: ClientAction)
    ensures
        action@ == (ClientActionView::End {
            report: Some(
                "capsudo: cannot connect to daemon at "@ + socket@ + ": "@ + cause@.text(),
            ),
            status: 1,
        }),
{
    let words = cause.message();
    let mut report = join("capsudo: cannot connect to daemon at ", socket);
    report.append(": ");
    report.append(words.as_str());
    ClientAction::End { report: Some(report), status: 1 }
}

/// A variable that the client passes on is the one that the daemon sets for the program.
pub proof fn passed_variable_is_set(name: Seq<char>, value: Seq<char>)
    requires
        !name.contains('='),
    ensures
        run::env_pairs(seq![entry(name, value)]) == seq![(name, value)],
{
    let e = entry(name, value);
    let k = name.len() as int;
    reveal_strlit("=");
    assert forall|i: int| 0 <= i < k implies e[i] != '=' by {
        assert(e[i] == name[i]);
    }
    text::find_char_unique(e, '=', k);
    assert(e.take(k) =~= name);
    assert(e.skip(k + 1) =~= value);
    reveal_with_fuel(run::env_pairs, 2);
    assert(seq![e].drop_last() =~= Seq::empty());
    assert(run::env_pairs(seq![e]) =~= seq![(name, value)]);
}

/// What the client is called with is what it asks for: behind any flags but `-s`, the
/// program's words are requested as they are, all and in order, whether `--` stands in front
/// of them or the first is no flag.
pub proof fn all_program_words_are_requested(
    flags: Seq<Seq<char>>,
    program: Seq<Seq<char>>,
    values: Seq<Option<Seq<char>>>,
    shell: Option<Seq<char>>,
    session_type: SessionType,
    winsize: Option<Seq<u16>>,
)
    requires
        options::flags_only(Tool::Client, flags),
        forall|i: int|
            0 <= i < options::cut_words(Tool::Client, flags).0.len()
                ==> #[trigger] options::cut_words(Tool::Client, flags).0[i] != ItemView::Switch(
                Flag::Shell,
            ),
    ensures
        options::client_options(flags + (seq!["--"@] + program)) matches Some(o) && request_of(
            o,
            values,
            shell,
            session_type,
            winsize,
        ).args == program,
        program.len() > 0 && options::word_kind(Tool::Client, program[0]) == Word::Program ==> (
        options::client_options(flags + program) matches Some(o) && request_of(
            o,
            values,
            shell,
            session_type,
            winsize,
        ).args == program),
{
    options::client_takes_all_program_words(flags, program);
    options::shell_only_where_asked(options::cut_words(Tool::Client, flags).0);
}

/// A shell is one word, whatever else was asked for: the caller's shell, or `sh`.
pub proof fn shell_is_requested(
    opts: ClientOptionsView,
    values: Seq<Option<Seq<char>>>,
    shell: Seq<char>,
    session_type: SessionType,
    winsize: Option<Seq<u16>>,
)
    requires
        opts.shell,
    ensures
        request_of(opts, values, Some(shell), session_type, winsize).args == seq![shell],
        request_of(opts, values, None, session_type, winsize).args == seq!["sh"@],
{
}

/// The variables that were asked for come first, and those that are passed on by themselves
/// come behind them; the session is of the kind that was chosen; and a window size goes with
/// an interactive session only.
pub proof fn requests_mean(
    opts: ClientOptionsView,
    values: Seq<Option<Seq<char>>>,
    shell: Option<Seq<char>>,
    session_type: SessionType,
    winsize: Option<Seq<u16>>,
)
    ensures
        ({
            let r = request_of(opts, values, shell, session_type, winsize);
            &&& opts.env.len() <= r.env.len()
            &&& r.env.take(opts.env.len() as int) == opts.env
            &&& r.env.skip(opts.env.len() as int) == entries(passed_names(), values)
            &&& r.session_type == session_type
            &&& session_type == SessionType::Interactive ==> r.winsize == winsize
            &&& session_type != SessionType::Interactive ==> r.winsize is None
            &&& !opts.shell ==> r.args == opts.args
        }),
{
    let r = request_of(opts, values, shell, session_type, winsize);
    assert(r.env.take(opts.env.len() as int) =~= opts.env);
    assert(r.env.skip(opts.env.len() as int) =~= entries(passed_names(), values));
}

/// A variable that is set is passed on as `name=value`, one that is not set is left out, and
/// they come in the order of their names.
pub proof fn variables_are_passed_on(
    a: Seq<Seq<char>>,
    x: Seq<Option<Seq<char>>>,
    b: Seq<Seq<char>>,
    y: Seq<Option<Seq<char>>>,
    name: Seq<char>,
    value: Seq<char>,
)
    requires
        a.len() == x.len(),
        b.len() == y.len(),
    ensures
        entries(a + b, x + y) == entries(a, x) + entries(b, y),
        entries(seq![name], seq![Some(value)]) == seq![name + "="@ + value],
        entries(seq![name], seq![None::<Seq<char>>]) == Seq::<Seq<char>>::empty(),
        passed_names().len() == 6,
        passed_names()[0] == "TERM"@,
        passed_names()[1] == "LANG"@,
        passed_names()[2] == "LC_ALL"@,
        passed_names()[3] == "LC_CTYPE"@,
        passed_names()[4] == "LC_MESSAGES"@,
        passed_names()[5] == "COLORTERM"@,
    decreases b.len(),
{
    reveal_with_fuel(entries, 2);
    assert(seq![name].drop_last() =~= Seq::empty());
    if b.len() == 0 {
        assert(a + b =~= a);
        assert(x + y =~= x);
    } else {
        let last = b.len() - 1;
        variables_are_passed_on(a, x, b.drop_last(), y.take(last), name, value);
        assert((a + b).drop_last() =~= a + b.drop_last());
        assert((x + y).take((a + b).len() - 1) =~= x + y.take(last));
        assert((a + b).last() == b.last());
        assert((x + y)[(a + b).len() - 1] == y[last]);
    }
    assert(entries(a + b, x + y) =~= entries(a, x) + entries(b, y));
}

/// A secret is the line that was typed without the line end, be it `\n`, `\r\n` or several of
/// them; a line with nothing else, and no line, give no secret.
pub proof fn secrets_lose_their_line_end(s: Seq<char>, ends: Seq<char>)
    requires
        s.len() > 0 ==> s.last() != '\r' && s.last() != '\n',
        forall|i: int| 0 <= i < ends.len() ==> #[trigger] ends[i] == '\r' || ends[i] == '\n',
    ensures
        without_line_end(s + ends) == s,
        s.len() > 0 ==> secret_of(Some(s + ends)) == Some(s),
        s.len() == 0 ==> secret_of(Some(s + ends)) is None,
        secret_of(None) is None,
    decreases ends.len(),
{
    if ends.len() == 0 {
        assert(s + ends =~= s);
    } else {
        assert((s + ends).last() == ends[ends.len() - 1]);
        assert((s + ends).drop_last() =~= s + ends.drop_last());
        secrets_lose_their_line_end(s, ends.drop_last());
    }
}

/// The client ends with the lowest byte of the program's status; a status that fits is kept.
pub proof fn statuses_keep_their_low_byte(code: i32)
    ensures
        (code - low_byte(code)) % 256 == 0,
        0 <= code <= 255 ==> low_byte(code) == code,
{
}

/// What the client does at the end of a session. It ends with the program's status, and says
/// nothing of its own; it tells the daemon's reason for a failure; it asks for a secret where
/// one is wanted, but only once; and any error of its own ends it with status 1.
pub proof fn sessions_end_as_told(
    presented: bool,
    code: i32,
    message: Seq<char>,
    prompt: Seq<char>,
    e: CoreErrorView,
)
    ensures
        session_action(presented, Ok(SessionOutcomeView::Exited(code))) == (ClientActionView::End {
            report: None,
            status: low_byte(code),
        }),
        session_action(presented, Ok(SessionOutcomeView::Failed { code, message })) == (
        ClientActionView::End {
            report: Some("capsudo: error: "@ + message),
            status: low_byte(code),
        }),
        session_action(false, Ok(SessionOutcomeView::Unauthorized(prompt)))
            == ClientActionView::AskSecret(prompt),
        session_action(true, Ok(SessionOutcomeView::Unauthorized(prompt))) == (
        ClientActionView::End { report: Some("capsudo: authentication failed"@), status: 1 }),
        session_action(presented, Err(e)) == (ClientActionView::End {
            report: Some("capsudo: "@ + e.text()),
            status: 1,
        }),
{
}

/// What stands on the client's command line behind `--` is what its request asks to run, all
/// and in order, unless a shell was asked for in front.
pub proof fn command_lines_become_requests(
    words: Vec<String>,
    flags: Seq<Seq<char>>,
    program: Seq<Seq<char>>,
    parsed: Result<ClientOptions, OptionsError>,
    values: Vec<Option<String>>,
    shell: Option<String>,
    session_type: SessionType,
    winsize: Option<[u16; 4]>,
    request: ClientRequest,
)
    requires
        text::texts(words@) == flags + (seq!["--"@] + program),
        options::flags_only(Tool::Client, flags),
        forall|i: int|
            0 <= i < options::cut_words(Tool::Client, flags).0.len()
                ==> #[trigger] options::cut_words(Tool::Client, flags).0[i] != ItemView::Switch(
                Flag::Shell,
            ),
        call_ensures(options::parse_client_options, (&words,), parsed),
        parsed matches Ok(o) ==> call_ensures(
            ClientOptions::into_request,
            (o, &values, shell, session_type, winsize),
            request,
        ),
    ensures
        parsed is Ok,
        text::texts(request.args@) == program,
        request.session_type == session_type,
        session_type == SessionType::Interactive ==> request.winsize is Some == winsize is Some,
        session_type != SessionType::Interactive ==> request.winsize is None,
{
    let dims = match winsize {
        Some(dims) => Some(dims@),
        None => None,
    };
    all_program_words_are_requested(
        flags,
        program,
        optional_texts(values@),
        optional_text(shell),
        session_type,
        dims,
    );
    assert(request@.args == text::texts(request.args@));
    assert(request@.session_type == request.session_type);
}

/// A session is of the kind that was forced, or else interactive exactly if both the input
/// and the output are terminals.
pub proof fn forced_sessions_are_kept(
    opts: ClientOptions,
    stdin_tty: bool,
    stdout_tty: bool,
    t: SessionType,
)
    requires
        call_ensures(ClientOptions::session_type, (&opts, stdin_tty, stdout_tty), t),
    ensures
        opts.session matches Some(forced) ==> t == forced,
        opts.session is None ==> (t == SessionType::Interactive <==> stdin_tty && stdout_tty),
        opts.session is None ==> t != SessionType::Auto,
{
    assert(opts@.session == opts.session);
}

/// The secret that was typed is presented next; without one the client says so and ends with
/// status 1, and so it does where it cannot reach the daemon.
pub proof fn prompts_lead_on(
    line: &str,
    secret: Seq<char>,
    ends: Seq<char>,
    action: PromptAction,
    nothing: PromptAction,
    socket: &str,
    cause: TransportError,
    unreachable: ClientAction,
)
    requires
        line@ == secret + ends,
        secret.len() > 0 ==> secret.last() != '\r' && secret.last() != '\n',
        forall|i: int| 0 <= i < ends.len() ==> #[trigger] ends[i] == '\r' || ends[i] == '\n',
        call_ensures(after_prompt, (Some(line),), action),
        call_ensures(after_prompt, (None,), nothing),
        call_ensures(after_failed_connect, (socket, &cause), unreachable),
    ensures
        secret.len() > 0 ==> action@ == PromptActionView::Retry(secret),
        secret.len() == 0 ==> action@ == (PromptActionView::End {
            report: "capsudo: a secret is required but none was provided"@,
            status: 1,
        }),
        nothing@ == (PromptActionView::End {
            report: "capsudo: a secret is required but none was provided"@,
            status: 1,
        }),
        unreachable@ == (ClientActionView::End {
            report: Some(
                "capsudo: cannot connect to daemon at "@ + socket@ + ": "@ + cause@.text(),
            ),
            status: 1,
        }),
{
    secrets_lose_their_line_end(secret, ends);
}

/// What the client does next, and texts that may be missing, are shown as they are.
pub proof fn client_actions_are_shown(
    s: String,
    status: u8,
    list: Seq<Option<String>>,
    i: int,
)
    ensures
        (ClientAction::End { report: Some(s), status })@ == (ClientActionView::End {
            report: Some(s@),
            status,
        }),
        (ClientAction::End { report: None, status })@ == (ClientActionView::End {
            report: None,
            status,
        }),
        ClientAction::AskSecret(s)@ == ClientActionView::AskSecret(s@),
        PromptAction::Retry(s)@ == PromptActionView::Retry(s@),
        (PromptAction::End { report: s, status })@ == (PromptActionView::End {
            report: s@,
            status,
        }),
        optional_text(Some(s)) == Some(s@),
        optional_text(None) is None,
        optional_texts(list).len() == list.len(),
        0 <= i < list.len() && list[i] is None ==> optional_texts(list)[i] is None,
        0 <= i < list.len() ==> (list[i] matches Some(text) ==> optional_texts(list)[i] == Some(
            text@,
        )),
{
}

} // verus!

//! The daemon's side of a session.

use crate::error::{CoreError, CoreErrorView};
use crate::exit;
use crate::exit::report_failure;
use crate::proto::laws::{
    payloads_mean, session_type_roundtrip, text_roundtrip, winsize_roundtrip,
};
use crate::proto::{FieldType, Message, MessageView, ProtoErrorView, SessionType};
use crate::text;
use crate::text::clone_texts;
use crate::transport::{Incoming, IncomingView};
use vstd::prelude::*;

verus! {

/// The daemon's policy, applied to every session.
pub struct DaemonConfig {
    /// The start of every argument vector. The client's arguments follow, unless
    /// [`no_client_argv`](Self::no_client_argv) is set.
    pub fixed_args: Vec<String>,
    /// The first entries of every environment. The client's follow, unless
    /// [`no_client_env`](Self::no_client_env) is set.
    pub fixed_env: Vec<String>,
    /// Ignore the client's arguments: the daemon alone says what runs.
    pub no_client_argv: bool,
    /// Ignore the client's environment.
    pub no_client_env: bool,
}

/// A [`DaemonConfig`] as a mathematical value.
#[verifier::ext_equal]
pub struct DaemonConfigView {
    pub fixed_args: Seq<Seq<char>>,
    pub fixed_env: Seq<Seq<char>>,
    pub no_client_argv: bool,
    pub no_client_env: bool,
}

impl View for DaemonConfig {
    type V = DaemonConfigView;

    open spec fn view(&self) -> DaemonConfigView {
        DaemonConfigView {
            fixed_args: text::texts(self.fixed_args@),
            fixed_env: text::texts(self.fixed_env@),
            no_client_argv: self.no_client_argv,
            no_client_env: self.no_client_env,
        }
    }
}

impl Clone for DaemonConfig {
    fn clone(&self) -> (config: DaemonConfig)
        ensures
            config@ == self@,
    {
        DaemonConfig {
            fixed_args: clone_texts(&self.fixed_args),
            fixed_env: clone_texts(&self.fixed_env),
            no_client_argv: self.no_client_argv,
            no_client_env: self.no_client_env,
        }
    }
}

impl Default for DaemonConfig {
    /// The policy that runs whatever the client asks for.
    fn default() -> (config: DaemonConfig)
        ensures
            config@ == (DaemonConfigView {
                fixed_args: Seq::empty(),
                fixed_env: Seq::empty(),
                no_client_argv: false,
                no_client_env: false,
            }),
    {
        let config = DaemonConfig {
            fixed_args: Vec::new(),
            fixed_env: Vec::new(),
            no_client_argv: false,
            no_client_env: false,
        };
        assert(config@.fixed_args =~= Seq::empty());
        assert(config@.fixed_env =~= Seq::empty());
        config
    }
}

/// A request that is complete and can be run.
pub struct SessionRequest<F> {
    /// The program and its arguments. There is always a program.
    pub argv: Vec<String>,
    /// The environment entries.
    pub envp: Vec<String>,
    /// How the standard streams are wired up.
    pub session_type: SessionType,
    /// The descriptors for standard input, output and error.
    pub stdio: [F; 3],
    /// Terminal dimensions: rows, columns, x pixels, y pixels.
    pub winsize: [u16; 4],
}

/// What the daemon has of a request while the client still configures it.
pub struct Configuration<F> {
    argv: Vec<String>,
    envp: Vec<String>,
    session_type: SessionType,
    stdio: Option<[F; 3]>,
    winsize: [u16; 4],
}

/// A [`SessionRequest`] as a mathematical value.
#[verifier::ext_equal]
pub struct RequestView<F> {
    pub argv: Seq<Seq<char>>,
    pub envp: Seq<Seq<char>>,
    pub session_type: SessionType,
    pub stdio: Seq<F>,
    pub winsize: Seq<u16>,
}

/// A [`Configuration`] as a mathematical value.
#[verifier::ext_equal]
pub struct ConfigurationView<F> {
    pub argv: Seq<Seq<char>>,
    pub envp: Seq<Seq<char>>,
    pub session_type: SessionType,
    pub stdio: Option<Seq<F>>,
    pub winsize: Seq<u16>,
}

impl<F> View for SessionRequest<F> {
    type V = RequestView<F>;

    open spec fn view(&self) -> RequestView<F> {
        RequestView {
            argv: text::texts(self.argv@),
            envp: text::texts(self.envp@),
            session_type: self.session_type,
            stdio: self.stdio@,
            winsize: self.winsize@,
        }
    }
}

impl<F> View for Configuration<F> {
    type V = ConfigurationView<F>;

    closed spec fn view(&self) -> ConfigurationView<F> {
        ConfigurationView {
            argv: text::texts(self.argv@),
            envp: text::texts(self.envp@),
            session_type: self.session_type,
            stdio: match self.stdio {
                Some(fds) => Some(fds@),
                None => None,
            },
            winsize: self.winsize@,
        }
    }
}

/// Where a configuration stands after one more message.
pub enum ConfigStep<F> {
    /// The client has more to say.
    More(Configuration<F>),
    /// The request is complete.
    Complete(SessionRequest<F>),
    /// The session ends here.
    Failed(CoreError),
}

/// A [`ConfigStep`] as a mathematical value.
pub enum ConfigStepView<F> {
    More(ConfigurationView<F>),
    Complete(RequestView<F>),
    Failed(CoreErrorView),
}

impl<F> View for ConfigStep<F> {
    type V = ConfigStepView<F>;

    open spec fn view(&self) -> ConfigStepView<F> {
        match *self {
            ConfigStep::More(c) => ConfigStepView::More(c@),
            ConfigStep::Complete(r) => ConfigStepView::Complete(r@),
            ConfigStep::Failed(e) => ConfigStepView::Failed(e@),
        }
    }
}

impl<F> ConfigurationView<F> {
    /// The configuration before the client said anything: the daemon's fixed arguments
    /// and environment, no terminal, and a window of 24 rows and 80 columns.
    pub open spec fn start(config: DaemonConfigView) -> ConfigurationView<F> {
        ConfigurationView {
            argv: config.fixed_args,
            envp: config.fixed_env,
            session_type: SessionType::NonInteractive,
            stdio: None,
            winsize: seq![24u16, 80u16, 0u16, 0u16],
        }
    }

    /// The request that a configuration amounts to. A session without a program runs a
    /// shell; one without descriptors cannot run.
    pub open spec fn finish(self) -> ConfigStepView<F> {
        match self.stdio {
            Some(stdio) => ConfigStepView::Complete(
                RequestView {
                    argv: if self.argv.len() == 0 {
                        seq!["sh"@]
                    } else {
                        self.argv
                    },
                    envp: self.envp,
                    session_type: self.session_type,
                    stdio,
                    winsize: self.winsize,
                },
            ),
            None => ConfigStepView::Failed(
                CoreErrorView::Protocol("client did not delegate stdio descriptors"@),
            ),
        }
    }

    /// What one message does to a configuration under the daemon's policy.
    pub open spec fn message(
        self,
        config: DaemonConfigView,
        m: MessageView,
        fds: Seq<F>,
    ) -> ConfigStepView<F> {
        match m.field_type {
            FieldType::Arg => if config.no_client_argv {
                ConfigStepView::More(self)
            } else {
                match m.text() {
                    Some(s) => ConfigStepView::More(
                        ConfigurationView { argv: self.argv.push(s), ..self },
                    ),
                    None => ConfigStepView::Failed(
                        CoreErrorView::Proto(m.bad("expected UTF-8 text"@)),
                    ),
                }
            },
            FieldType::Env => if config.no_client_env {
                ConfigStepView::More(self)
            } else {
                match m.text() {
                    Some(s) => ConfigStepView::More(
                        ConfigurationView { envp: self.envp.push(s), ..self },
                    ),
                    None => ConfigStepView::Failed(
                        CoreErrorView::Proto(m.bad("expected UTF-8 text"@)),
                    ),
                }
            },
            FieldType::SessionType => match m.session() {
                Ok(session_type) => ConfigStepView::More(
                    ConfigurationView { session_type, ..self },
                ),
                Err(e) => ConfigStepView::Failed(CoreErrorView::Proto(e)),
            },
            FieldType::Winsize => match m.dims() {
                Some(winsize) => ConfigStepView::More(ConfigurationView { winsize, ..self }),
                None => ConfigStepView::Failed(
                    CoreErrorView::Proto(m.bad("expected 8-byte window size"@)),
                ),
            },
            FieldType::Fd => if fds.len() == 3 {
                ConfigStepView::More(ConfigurationView { stdio: Some(fds), ..self })
            } else {
                ConfigStepView::Failed(
                    CoreErrorView::Protocol("expected exactly three stdio descriptors"@),
                )
            },
            FieldType::End => self.finish(),
            _ => ConfigStepView::More(self),
        }
    }

    /// What the next event does to a configuration under the daemon's policy.
    pub open spec fn step(
        self,
        config: DaemonConfigView,
        incoming: IncomingView<F>,
    ) -> ConfigStepView<F> {
        match incoming {
            IncomingView::Message(r) => self.message(config, r.message, r.fds),
            IncomingView::Closed => ConfigStepView::Failed(CoreErrorView::ClientClosed),
            IncomingView::Failed(e) => ConfigStepView::Failed(CoreErrorView::Transport(e)),
        }
    }

    /// What a list of events does to a configuration, up to the first event that ends it.
    pub open spec fn run(
        self,
        config: DaemonConfigView,
        events: Seq<IncomingView<F>>,
    ) -> ConfigStepView<F>
        decreases events.len(),
    {
        if events.len() == 0 {
            ConfigStepView::More(self)
        } else {
            match self.step(config, events[0]) {
                ConfigStepView::More(next) => next.run(config, events.drop_first()),
                last => last,
            }
        }
    }
}

/// Takes three descriptors out of a list of exactly three.
fn three<F>(fds: Vec<F>) -> (r: Option<[F; 3]>)
    ensures
        match r {
            Some(a) => fds@.len() == 3 && a@ == fds@,
            None => fds@.len() != 3,
        },
{
    let mut fds = fds;
    let ghost all = fds@;
    if fds.len() != 3 {
        return None;
    }
    let c = fds.pop().unwrap();
    let b = fds.pop().unwrap();
    let a = fds.pop().unwrap();
    let r: [F; 3] = [a, b, c];
    assert(r@ =~= all);
    Some(r)
}

impl<F> Configuration<F> {
    /// The configuration before the client said anything.
    pub fn start(config: &DaemonConfig) -> (c: Configuration<F>)
        ensures
            c@ == ConfigurationView::<F>::start(config@),
    {
        let winsize: [u16; 4] = [24, 80, 0, 0];
        let c = Configuration {
            argv: clone_texts(&config.fixed_args),
            envp: clone_texts(&config.fixed_env),
            session_type: SessionType::NonInteractive,
            stdio: None,
            winsize,
        };
        assert(c@ =~= ConfigurationView::<F>::start(config@));
        c
    }

    /// Completes the request.
    fn finish(self) -> (step: ConfigStep<F>)
        ensures
            step@ == self@.finish(),
    {
        let mut argv = self.argv;
        if argv.is_empty() {
            argv.push("sh".to_owned());
            assert(text::texts(argv@) =~= seq!["sh"@]);
        }
        match self.stdio {
            Some(stdio) => {
                let r = SessionRequest {
                    argv,
                    envp: self.envp,
                    session_type: self.session_type,
                    stdio,
                    winsize: self.winsize,
                };
                assert(r@ =~= self@.finish()->Complete_0);
                ConfigStep::Complete(r)
            },
            None => ConfigStep::Failed(
                CoreError::Protocol("client did not delegate stdio descriptors"),
            ),
        }
    }

    /// Takes one more event of the client's configuration, under the daemon's policy.
    pub fn step(self, config: &DaemonConfig, incoming: Incoming<F>) -> (step: ConfigStep<F>)
        ensures
            step@ == self@.step(config@, incoming@),
    {
        let mut c = self;
        let received = match incoming {
            Incoming::Message(received) => received,
            Incoming::Closed => return ConfigStep::Failed(CoreError::ClientClosed),
            Incoming::Failed(e) => return ConfigStep::Failed(CoreError::Transport(e)),
        };
        let ghost m = received.message@;
        let ghost fds = received.fds@;
        match received.message.field_type() {
            FieldType::Arg => {
                if !config.no_client_argv {
                    let ghost before = c.argv@;
                    match received.message.as_str() {
                        Ok(s) => {
                            c.argv.push(s.to_owned());
                            assert(text::texts(c.argv@) =~= text::texts(before).push(s@));
                        },
                        Err(e) => return ConfigStep::Failed(CoreError::Proto(e)),
                    }
                }
            },
            FieldType::Env => {
                if !config.no_client_env {
                    let ghost before = c.envp@;
                    match received.message.as_str() {
                        Ok(s) => {
                            c.envp.push(s.to_owned());
                            assert(text::texts(c.envp@) =~= text::texts(before).push(s@));
                        },
                        Err(e) => return ConfigStep::Failed(CoreError::Proto(e)),
                    }
                }
            },
            FieldType::SessionType => {
                match received.message.as_session_type() {
                    Ok(t) => {
                        c.session_type = t;
                    },
                    Err(e) => return ConfigStep::Failed(CoreError::Proto(e)),
                }
            },
            FieldType::Winsize => {
                match received.message.as_winsize() {
                    Ok(dims) => {
                        c.winsize = dims;
                    },
                    Err(e) => return ConfigStep::Failed(CoreError::Proto(e)),
                }
            },
            FieldType::Fd => {
                match three(received.fds) {
                    Some(stdio) => {
                        c.stdio = Some(stdio);
                    },
                    None => return ConfigStep::Failed(
                        CoreError::Protocol("expected exactly three stdio descriptors"),
                    ),
                }
            },
            FieldType::End => return c.finish(),
            // A secret is for an authenticating front-end. Nothing else belongs to a
            // configuration, and a peer may send what this version does not know.
            _ => {},
        }
        assert(c@ =~= self@.message(config@, m, fds)->More_0);
        ConfigStep::More(c)
    }
}

/// What the daemon tells a client whose configuration failed: the error in words, then
/// status 1.
pub fn refuse(e: &CoreError) -> (out: Vec<Message>)
    ensures
        exit::message_views(out@) == exit::failure_messages(e@.text(), 1),
{
    let reason = e.message();
    report_failure(reason.as_str(), 1)
}

/// Before the client has said anything, the daemon's own arguments and variables stand, the
/// session is not interactive, there are no descriptors, and the window has 24 rows of 80
/// columns.
pub proof fn configurations_start_from_the_policy<F>(config: DaemonConfigView)
    ensures
        ConfigurationView::<F>::start(config).argv == config.fixed_args,
        ConfigurationView::<F>::start(config).envp == config.fixed_env,
        ConfigurationView::<F>::start(config).session_type == SessionType::NonInteractive,
        ConfigurationView::<F>::start(config).stdio is None,
        ConfigurationView::<F>::start(config).winsize == seq![24u16, 80u16, 0u16, 0u16],
{
}

/// Each message changes one thing and leaves the rest. Arguments and variables come behind
/// those that are there, unless the daemon keeps them out; of several kinds of session,
/// window sizes and sets of descriptors the last counts; other messages make no difference.
pub proof fn messages_change_one_thing<F>(
    c: ConfigurationView<F>,
    config: DaemonConfigView,
    m: MessageView,
    s: Seq<char>,
    ty: SessionType,
    dims: Seq<u16>,
    fds: Seq<F>,
)
    requires
        dims.len() == 4,
    ensures
        !config.no_client_argv ==> c.message(config, MessageView::of_text(FieldType::Arg, s), fds)
            == ConfigStepView::More(ConfigurationView { argv: c.argv.push(s), ..c }),
        config.no_client_argv && m.field_type == FieldType::Arg ==> c.message(config, m, fds)
            == ConfigStepView::More(c),
        !config.no_client_env ==> c.message(config, MessageView::of_text(FieldType::Env, s), fds)
            == ConfigStepView::More(ConfigurationView { envp: c.envp.push(s), ..c }),
        config.no_client_env && m.field_type == FieldType::Env ==> c.message(config, m, fds)
            == ConfigStepView::More(c),
        c.message(config, MessageView::session_type(ty), fds) == ConfigStepView::More(
            ConfigurationView { session_type: ty, ..c },
        ),
        c.message(config, MessageView::winsize(dims), fds) == ConfigStepView::More(
            ConfigurationView { winsize: dims, ..c },
        ),
        m.field_type == FieldType::Fd && fds.len() == 3 ==> c.message(config, m, fds)
            == ConfigStepView::More(ConfigurationView { stdio: Some(fds), ..c }),
        m.field_type == FieldType::Exit || m.field_type == FieldType::Error || m.field_type
            == FieldType::Secret || m.field_type == FieldType::Unauthorized ==> c.message(
            config,
            m,
            fds,
        ) == ConfigStepView::More(c),
{
    text_roundtrip(FieldType::Arg, s);
    text_roundtrip(FieldType::Env, s);
    session_type_roundtrip(ty);
    winsize_roundtrip(dims);
}

/// What the daemon refuses, and why: text that is none, a window size of the wrong length, a
/// kind of session that is none, any number of descriptors but three, an end before the
/// descriptors came, and a channel that closes or fails.
pub proof fn refusals_have_their_reason<F>(
    c: ConfigurationView<F>,
    config: DaemonConfigView,
    m: MessageView,
    fds: Seq<F>,
    e: crate::error::TransportErrorView,
)
    ensures
        (m.field_type == FieldType::Arg && !config.no_client_argv || m.field_type == FieldType::Env
            && !config.no_client_env) && !vstd::utf8::valid_utf8(m.payload) ==> c.message(
            config,
            m,
            fds,
        ) == ConfigStepView::<F>::Failed(
            CoreErrorView::Proto(
                ProtoErrorView::InvalidPayload {
                    field_type: m.field_type,
                    reason: "expected UTF-8 text"@,
                },
            ),
        ),
        m.field_type == FieldType::Winsize && m.payload.len() != 8 ==> c.message(config, m, fds)
            == ConfigStepView::<F>::Failed(
            CoreErrorView::Proto(
                ProtoErrorView::InvalidPayload {
                    field_type: FieldType::Winsize,
                    reason: "expected 8-byte window size"@,
                },
            ),
        ),
        m.field_type == FieldType::SessionType && m.payload.len() != 1 ==> c.message(config, m, fds)
            == ConfigStepView::<F>::Failed(
            CoreErrorView::Proto(
                ProtoErrorView::InvalidPayload {
                    field_type: FieldType::SessionType,
                    reason: "expected single session-type byte"@,
                },
            ),
        ),
        m.field_type == FieldType::SessionType && m.payload.len() == 1 && !(1 <= m.payload[0] <= 3)
            ==> c.message(config, m, fds) == ConfigStepView::<F>::Failed(
            CoreErrorView::Proto(ProtoErrorView::InvalidSessionType(m.payload[0])),
        ),
        m.field_type == FieldType::Fd && fds.len() != 3 ==> c.message(config, m, fds)
            == ConfigStepView::<F>::Failed(
            CoreErrorView::Protocol("expected exactly three stdio descriptors"@),
        ),
        m.field_type == FieldType::End && c.stdio is None ==> c.message(config, m, fds)
            == ConfigStepView::<F>::Failed(
            CoreErrorView::Protocol("client did not delegate stdio descriptors"@),
        ),
        c.step(config, IncomingView::Closed) == ConfigStepView::<F>::Failed(
            CoreErrorView::ClientClosed,
        ),
        c.step(config, IncomingView::Failed(e)) == ConfigStepView::<F>::Failed(
            CoreErrorView::Transport(e),
        ),
{
    payloads_mean(m, "expected UTF-8 text"@);
    payloads_mean(m, "expected 8-byte window size"@);
}

/// At the end, what was gathered is what runs; where that leaves no program, it is `sh`.
pub proof fn the_end_hands_over_what_was_gathered<F>(
    c: ConfigurationView<F>,
    config: DaemonConfigView,
    m: MessageView,
    fds: Seq<F>,
    stdio: Seq<F>,
)
    requires
        m.field_type == FieldType::End,
        c.stdio == Some(stdio),
    ensures
        c.message(config, m, fds) matches ConfigStepView::Complete(r) && {
            &&& c.argv.len() > 0 ==> r.argv == c.argv
            &&& c.argv.len() == 0 ==> r.argv == seq!["sh"@]
            &&& r.envp == c.envp
            &&& r.session_type == c.session_type
            &&& r.stdio == stdio
            &&& r.winsize == c.winsize
        },
{
}

/// A daemon that is told nothing fixes nothing.
pub proof fn default_policy_is_open(config: DaemonConfig)
    requires
        call_ensures(<DaemonConfig as Default>::default, (), config),
    ensures
        config.fixed_args@.len() == 0,
        config.fixed_env@.len() == 0,
        !config.no_client_argv,
        !config.no_client_env,
{
    assert(config@.fixed_args.len() == config.fixed_args@.len());
    assert(config@.fixed_env.len() == config.fixed_env@.len());
    assert(config@.no_client_argv == config.no_client_argv);
    assert(config@.no_client_env == config.no_client_env);
}

/// A client whose request is refused is told why, and that it failed with status 1.
pub proof fn refusals_are_told(e: CoreError, out: Vec<Message>)
    requires
        call_ensures(refuse, (&e,), out),
    ensures
        out@.len() == 2,
        out@[0]@ == MessageView::of_text(FieldType::Error, e@.text()),
        out@[1]@ == MessageView::exit(1),
{
    assert(exit::message_views(out@).len() == out@.len());
    assert(exit::message_views(out@)[0] == out@[0]@);
    assert(exit::message_views(out@)[1] == out@[1]@);
}

/// Policies, requests and steps are shown as they are.
pub proof fn requests_are_shown<F>(
    config: DaemonConfig,
    r: SessionRequest<F>,
    c: Configuration<F>,
    e: CoreError,
)
    ensures
        config@.fixed_args == text::texts(config.fixed_args@),
        config@.fixed_env == text::texts(config.fixed_env@),
        config@.no_client_argv == config.no_client_argv,
        config@.no_client_env == config.no_client_env,
        r@.argv == text::texts(r.argv@),
        r@.envp == text::texts(r.envp@),
        r@.session_type == r.session_type,
        r@.stdio == r.stdio@,
        r@.winsize == r.winsize@,
        ConfigStep::More(c)@ == ConfigStepView::More(c@),
        ConfigStep::Complete(r)@ == ConfigStepView::Complete(r@),
        ConfigStep::<F>::Failed(e)@ == ConfigStepView::<F>::Failed(e@),
{
}

/// A copy of a policy is the same policy.
pub proof fn policies_are_copied_whole(config: DaemonConfig, copy: DaemonConfig)
    requires
        call_ensures(<DaemonConfig as Clone>::clone, (&config,), copy),
    ensures
        text::texts(copy.fixed_args@) == text::texts(config.fixed_args@),
        text::texts(copy.fixed_env@) == text::texts(config.fixed_env@),
        copy.no_client_argv == config.no_client_argv,
        copy.no_client_env == config.no_client_env,
{
    assert(copy@ == config@);
    assert(copy@.fixed_args == text::texts(copy.fixed_args@));
    assert(copy@.fixed_env == text::texts(copy.fixed_env@));
    assert(copy@.no_client_argv == copy.no_client_argv);
    assert(copy@.no_client_env == copy.no_client_env);
}

} // verus!

//! The authenticating front-end: it asks for a secret before it lets a connection through
//! to the daemon.

use crate::client;
use crate::client::{ClientRequestView, OutcomeStepView, SessionOutcomeView};
use crate::daemon::{ConfigStepView, ConfigurationView, DaemonConfigView};
use crate::exit;
use crate::exit::report_failure;
use crate::invoke;
use crate::laws;
use crate::proto::{FieldType, Message, MessageView};
use crate::system;
use crate::system::{host_name, user_by_id};
use crate::text::join;
use crate::transport::{Incoming, IncomingView, PeerCred};
use vstd::prelude::*;
use vstd::string::*;
use vstd::utf8::*;

verus! {

/// The host's name for a prompt. Where it is not known the host is `localhost`.
pub open spec fn host_or_local(host: Option<Seq<char>>) -> Seq<char> {
    match host {
        Some(name) => name,
        None => "localhost"@,
    }
}

/// What a user is asked for a secret with.
pub open spec fn prompt_text(user: Seq<char>, host: Seq<char>) -> Seq<char> {
    "[capsudo] "@ + user + "@"@ + host + "'s password: "@
}

/// What `user` is asked for a secret with, on a host with the given name.
pub fn auth_prompt(user: &str, host: Option<String>) -> (prompt: String)
    ensures
        prompt@ == prompt_text(user@, host_or_local(invoke::optional_text(host))),
{
    let host = match host {
        Some(name) => name,
        None => "localhost".to_owned(),
    };
    let mut prompt = join("[capsudo] ", user);
    prompt.append("@");
    prompt.append(host.as_str());
    prompt.append("'s password: ");
    prompt
}

/// A front-end that waits for the first message of a user whom it knows.
pub struct FrontEnd {
    /// The user's id.
    pub uid: u32,
    /// The user's name, under which the secret is checked.
    pub user: String,
    /// What the user is asked for a secret with.
    pub prompt: String,
}

/// A [`FrontEnd`] as a mathematical value.
pub struct FrontEndView {
    pub uid: u32,
    pub user: Seq<char>,
    pub prompt: Seq<char>,
}

impl View for FrontEnd {
    type V = FrontEndView;

    open spec fn view(&self) -> FrontEndView {
        FrontEndView { uid: self.uid, user: self.user@, prompt: self.prompt@ }
    }
}

/// What a front-end does with a new connection.
pub enum Greeting {
    /// Send these messages and close the connection.
    Refuse(Vec<Message>),
    /// Wait for the first message.
    Wait(FrontEnd),
}

/// A [`Greeting`] as a mathematical value.
pub enum GreetingView {
    Refuse(Seq<MessageView>),
    Wait(FrontEndView),
}

impl View for Greeting {
    type V = GreetingView;

    open spec fn view(&self) -> GreetingView {
        match *self {
            Greeting::Refuse(list) => GreetingView::Refuse(exit::message_views(list@)),
            Greeting::Wait(front) => GreetingView::Wait(front@),
        }
    }
}

/// The mathematical value of a user, if there is one.
pub open spec fn user_view(user: Option<(u32, String)>) -> Option<(u32, Seq<char>)> {
    match user {
        Some((uid, name)) => Some((uid, name@)),
        None => None,
    }
}

/// What a front-end does with a new connection, given who the peer is, the id and name of
/// that user if there is one, and the host's name. A peer that cannot be told, and one that is
/// no user, are refused.
pub open spec fn greeting(
    cred: Option<PeerCred>,
    user: Option<(u32, Seq<char>)>,
    host: Option<Seq<char>>,
) -> GreetingView {
    match cred {
        Some(_) => match user {
            Some((uid, user)) => GreetingView::Wait(
                FrontEndView { uid, user, prompt: prompt_text(user, host_or_local(host)) },
            ),
            None => GreetingView::Refuse(exit::failure_messages("unknown peer user"@, 1)),
        },
        None => GreetingView::Refuse(
            exit::failure_messages("unable to determine peer credentials"@, 1),
        ),
    }
}

/// Greets a connection, given who the peer is, the id and name of that user if there is
/// one, and the host's name.
pub fn greet(cred: Option<PeerCred>, user: Option<(u32, String)>, host: Option<String>) -> (g:
    Greeting)
    ensures
        g@ == greeting(cred, user_view(user), invoke::optional_text(host)),
{
    if cred.is_none() {
        return Greeting::Refuse(report_failure("unable to determine peer credentials", 1));
    }
    match user {
        Some((uid, user)) => {
            let prompt = auth_prompt(user.as_str(), host);
            Greeting::Wait(FrontEnd { uid, user, prompt })
        },
        None => Greeting::Refuse(report_failure("unknown peer user", 1)),
    }
}

/// Greets a connection on this host. The user who is waited for is the one with the peer's
/// own user id.
pub fn greet_peer(cred: Option<PeerCred>) -> (g: Greeting)
    ensures
        exists|user: Option<(u32, Seq<char>)>, host: Option<Seq<char>>| g@ == #[trigger] greeting(
            cred,
            user,
            host,
        ),
        cred matches Some(c) ==> exists|user: Option<(u32, String)>, host: Option<String>|
            #![trigger system::user_answer(c.uid, user), system::host_answer(host)]
            {
                &&& system::user_answer(c.uid, user)
                &&& system::host_answer(host)
                &&& match user {
                    Some((uid, name)) => {
                        &&& g@ matches GreetingView::Wait(front)
                        &&& front.uid == c.uid
                        &&& front.user == name@
                        &&& front.prompt == "[capsudo] "@ + name@ + "@"@ + match host {
                            Some(h) => h@,
                            None => "localhost"@,
                        } + "'s password: "@
                    },
                    None => g@ == GreetingView::Refuse(
                        exit::failure_messages("unknown peer user"@, 1),
                    ),
                }
            },
        g@ matches GreetingView::Wait(front) ==> (cred matches Some(c) && front.uid == c.uid),
        cred is None ==> g@ == GreetingView::Refuse(
            exit::failure_messages("unable to determine peer credentials"@, 1),
        ),
{
    let user = match cred {
        Some(c) => user_by_id(c.uid),
        None => None,
    };
    let host = host_name();
    proof {
        if cred is Some {
            system::user_was_found(cred.unwrap().uid, user);
        }
        system::host_was_found(host);
    }
    let ghost found = user;
    let ghost named = host;
    let ghost who = user_view(user);
    let ghost at = invoke::optional_text(host);
    let g = greet(cred, user, host);
    assert(g@ == greeting(cred, who, at));
    assert(cred is Some ==> system::user_answer(cred.unwrap().uid, found));
    assert(system::host_answer(named));
    g
}

/// What a front-end does with the first message.
pub enum FrontStep {
    /// Close the connection.
    Drop,
    /// Send this message and close the connection.
    Challenge(Message),
    /// Check this secret, and go on with [`after_check`].
    Check(Vec<u8>),
}

/// A [`FrontStep`] as a mathematical value.
#[verifier::ext_equal]
pub enum FrontStepView {
    Drop,
    Challenge(MessageView),
    Check(Seq<u8>),
}

impl View for FrontStep {
    type V = FrontStepView;

    open spec fn view(&self) -> FrontStepView {
        match *self {
            FrontStep::Drop => FrontStepView::Drop,
            FrontStep::Challenge(m) => FrontStepView::Challenge(m@),
            FrontStep::Check(secret) => FrontStepView::Check(secret@),
        }
    }
}

impl FrontEndView {
    /// What a front-end does with the first message. Only a secret is checked, and only
    /// if no descriptors come with it; anything else is answered with a prompt.
    pub open spec fn step<F>(self, incoming: IncomingView<F>) -> FrontStepView {
        match incoming {
            IncomingView::Message(r) => if r.fds.len() == 0 && r.message.field_type
                == FieldType::Secret {
                FrontStepView::Check(r.message.payload)
            } else {
                FrontStepView::Challenge(
                    MessageView::of_text(FieldType::Unauthorized, self.prompt),
                )
            },
            _ => FrontStepView::Drop,
        }
    }
}

impl FrontEnd {
    /// Takes the first message.
    pub fn step<F>(&self, incoming: Incoming<F>) -> (step: FrontStep)
        ensures
            step@ == self@.step(incoming@),
    {
        match incoming {
            Incoming::Message(r) => {
                if r.fds.is_empty() && r.message.field_type() == FieldType::Secret {
                    FrontStep::Check(r.message.into_payload())
                } else {
                    FrontStep::Challenge(Message::unauthorized(self.prompt.as_str()))
                }
            },
            _ => FrontStep::Drop,
        }
    }
}

/// What to send after a secret was checked: a secret that does not fit is refused; one
/// that fits needs no answer, and the connection goes on to the daemon.
pub fn after_check(fits: bool) -> (refusal: Option<Vec<Message>>)
    ensures
        match refusal {
            Some(list) => !fits && exit::message_views(list@) == exit::failure_messages(
                "secret invalid"@,
                1,
            ),
            None => fits,
        },
{
    if fits {
        None
    } else {
        Some(report_failure("secret invalid", 1))
    }
}

/// A client that presents no secret is asked for one: its first message is answered with
/// the prompt, and the client understands it.
pub proof fn client_is_challenged<F>(front: FrontEndView, request: ClientRequestView, fds: Seq<F>)
    ensures
        front.step(laws::delivered(client::configuration(request, None), fds)[0])
            == FrontStepView::Challenge(
            MessageView::of_text(FieldType::Unauthorized, front.prompt),
        ),
        client::outcome_run(
            None,
            laws::arrivals::<F>(
                seq![MessageView::of_text(FieldType::Unauthorized, front.prompt)],
            ),
        ) == OutcomeStepView::Done(SessionOutcomeView::Unauthorized(front.prompt)),
{
    laws::secret_comes_first(request, Seq::empty());
    laws::challenge_is_understood::<F>(front.prompt);
}

/// A client that presents a secret has that secret checked; and if the connection goes on
/// to the daemon, the daemon reads the rest as the client's whole configuration and runs
/// what it owes the client.
pub proof fn authenticated_client_is_served<F>(
    front: FrontEndView,
    config: DaemonConfigView,
    request: ClientRequestView,
    secret: Seq<char>,
    fds: Seq<F>,
)
    requires
        request.winsize matches Some(dims) ==> dims.len() == 4,
        fds.len() == 3,
    ensures
        ({
            let events = laws::delivered(client::configuration(request, Some(secret)), fds);
            &&& front.step(events[0]) == FrontStepView::Check(encode_utf8(secret))
            &&& ConfigurationView::start(config).run(config, events.drop_first())
                == ConfigStepView::Complete(laws::granted(config, request, fds))
        }),
{
    let list = client::configuration(request, Some(secret));
    laws::secret_comes_first(request, secret);
    laws::configuration_is_granted(config, request, None, fds);
    assert(laws::delivered(list, fds).drop_first() =~= laws::delivered(list.drop_first(), fds));
}

/// Nothing gets to the check but a secret without descriptors.
pub proof fn only_secrets_are_checked<F>(
    front: FrontEndView,
    incoming: IncomingView<F>,
    secret: Seq<u8>,
)
    requires
        front.step(incoming) == FrontStepView::Check(secret),
    ensures
        incoming matches IncomingView::Message(r) && r.fds.len() == 0 && r.message
            == MessageView::secret(secret),
{
}

/// What it takes to get a secret checked: a peer who can be told, who is a user, and whose
/// first message is that secret, without descriptors. It is checked as the secret of that
/// user.
pub proof fn check_is_of_the_peer<F>(
    cred: Option<PeerCred>,
    user: Option<(u32, Seq<char>)>,
    host: Option<Seq<char>>,
    front: FrontEndView,
    incoming: IncomingView<F>,
    secret: Seq<u8>,
)
    requires
        greeting(cred, user, host) == GreetingView::Wait(front),
        front.step(incoming) == FrontStepView::Check(secret),
    ensures
        cred is Some,
        user == Some((front.uid, front.user)),
        incoming matches IncomingView::Message(r) && r.fds.len() == 0 && r.message
            == MessageView::secret(secret),
{
}

/// A peer whose credentials are known, and whose user is known, is asked for that user's
/// password on this host; any other peer is told what is missing, and that it failed.
pub proof fn greetings_mean(
    cred: PeerCred,
    uid: u32,
    user: Seq<char>,
    host: Option<Seq<char>>,
    name: Seq<char>,
    other: Option<(u32, Seq<char>)>,
)
    ensures
        greeting(None, other, host) == GreetingView::Refuse(
            seq![
                MessageView::of_text(
                    FieldType::Error,
                    "unable to determine peer credentials"@,
                ),
                MessageView::exit(1),
            ],
        ),
        greeting(Some(cred), None, host) == GreetingView::Refuse(
            seq![
                MessageView::of_text(FieldType::Error, "unknown peer user"@),
                MessageView::exit(1),
            ],
        ),
        greeting(Some(cred), Some((uid, user)), host) matches GreetingView::Wait(front) && front.uid
            == uid && front.user == user,
        greeting(Some(cred), Some((uid, user)), Some(name)) matches GreetingView::Wait(front)
            && front.prompt == "[capsudo] "@ + user + "@"@ + name + "'s password: "@,
        greeting(Some(cred), Some((uid, user)), None) matches GreetingView::Wait(front)
            && front.prompt == "[capsudo] "@ + user + "@"@ + "localhost"@ + "'s password: "@,
{
}

/// The front-end checks a secret that comes without descriptors, as it is; asks for one
/// after any other message; and drops a channel that closes or fails.
pub proof fn first_messages_mean<F>(
    front: FrontEndView,
    m: MessageView,
    fds: Seq<F>,
    e: crate::error::TransportErrorView,
)
    ensures
        ({
            let step = front.step(
                IncomingView::Message(crate::transport::ReceivedView { message: m, fds }),
            );
            &&& m.field_type == FieldType::Secret && fds.len() == 0 ==> step
                == FrontStepView::Check(m.payload)
            &&& m.field_type != FieldType::Secret || fds.len() > 0 ==> step
                == FrontStepView::Challenge(
                MessageView::of_text(FieldType::Unauthorized, front.prompt),
            )
        }),
        front.step::<F>(IncomingView::Closed) is Drop,
        front.step::<F>(IncomingView::Failed(e)) is Drop,
{
}

/// A secret that fits is not refused; one that does not is answered with an error and
/// status 1.
pub proof fn wrong_secrets_are_refused(
    right: Option<Vec<Message>>,
    wrong: Option<Vec<Message>>,
)
    requires
        call_ensures(after_check, (true,), right),
        call_ensures(after_check, (false,), wrong),
    ensures
        right is None,
        wrong matches Some(list) && list@.len() == 2 && list@[0]@ == MessageView::of_text(
            FieldType::Error,
            "secret invalid"@,
        ) && list@[1]@ == MessageView::exit(1),
{
    let list = wrong.unwrap();
    assert(exit::message_views(list@).len() == list@.len());
    assert(exit::message_views(list@)[0] == list@[0]@);
    assert(exit::message_views(list@)[1] == list@[1]@);
}

/// Greetings and the front-end's steps are shown as they are.
pub proof fn greetings_are_shown(
    front: FrontEnd,
    list: Vec<Message>,
    m: Message,
    secret: Vec<u8>,
    uid: u32,
    name: String,
)
    ensures
        front@.uid == front.uid,
        front@.user == front.user@,
        front@.prompt == front.prompt@,
        Greeting::Refuse(list)@ == GreetingView::Refuse(exit::message_views(list@)),
        Greeting::Wait(front)@ == GreetingView::Wait(front@),
        FrontStep::Drop@ == FrontStepView::Drop,
        FrontStep::Challenge(m)@ == FrontStepView::Challenge(m@),
        FrontStep::Check(secret)@ == FrontStepView::Check(secret@),
        user_view(Some((uid, name))) == Some((uid, name@)),
        user_view(None) is None,
{
}

} // verus!

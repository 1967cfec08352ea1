//! Command lines of the three programs.
//!
//! A command line is first cut into flags and the program that follows them, by a
//! grammar that the programs share, and then folded into options.

use crate::daemon::{DaemonConfig, DaemonConfigView};
use crate::ownerspec;
use crate::ownerspec::{parse_mode, parse_owner_spec};
use crate::proto::SessionType;
use crate::text;
use crate::text::{clone_texts_from, join, same_text};
use vstd::prelude::*;
use vstd::string::*;

verus! {

/// The program whose command line is read.
#[derive(Clone, Copy, PartialEq, Eq, Debug, Structural)]
pub enum Tool {
    /// The client.
    Client,
    /// The daemon.
    Daemon,
    /// The authenticating front-end.
    Pwauth,
}

/// A flag of a command line.
#[derive(Clone, Copy, PartialEq, Eq, Debug, Structural)]
pub enum Flag {
    /// `-i`: force an interactive session.
    Interactive,
    /// `-n`: force a non-interactive session.
    NonInteractive,
    /// `-s`: run a shell.
    Shell,
    /// `-f`: ignore the client's arguments.
    NoClientArgv,
    /// `-E`: ignore the client's environment.
    NoClientEnv,
    /// `-S socket`.
    Socket,
    /// `-e key=value`.
    Env,
    /// `-o user[:group]`.
    Owner,
    /// `-m mode`.
    Mode,
}

/// What one word of a command line is.
#[derive(Clone, Copy, PartialEq, Eq, Debug, Structural)]
pub enum Word {
    /// A request for help.
    Help,
    /// `--`, which ends the flags.
    Separator,
    /// A flag that stands alone.
    Switch(Flag),
    /// A flag that takes the next word.
    Valued(Flag),
    /// The program to run. It ends the flags too.
    Program,
}

/// One flag of a command line, with its value if it takes one.
pub enum Item {
    /// A flag that stands alone.
    Switch(Flag),
    /// A flag and its value.
    Value(Flag, String),
}

/// An [`Item`] as a mathematical value.
pub enum ItemView {
    Switch(Flag),
    Value(Flag, Seq<char>),
}

impl View for Item {
    type V = ItemView;

    open spec fn view(&self) -> ItemView {
        match *self {
            Item::Switch(f) => ItemView::Switch(f),
            Item::Value(f, s) => ItemView::Value(f, s@),
        }
    }
}

/// The mathematical values of a list of items.
pub open spec fn item_views(items: Seq<Item>) -> Seq<ItemView> {
    items.map_values(|i: Item| i@)
}

/// What a word is on the command line of `tool`. A word that is no flag of the program
/// starts the program to run, even if it looks like a flag.
pub open spec fn word_kind(tool: Tool, w: Seq<char>) -> Word {
    if w == "-h"@ || w == "--help"@ {
        Word::Help
    } else if w == "--"@ {
        Word::Separator
    } else if w == "-S"@ {
        Word::Valued(Flag::Socket)
    } else if tool == Tool::Client && w == "-i"@ {
        Word::Switch(Flag::Interactive)
    } else if tool == Tool::Client && w == "-n"@ {
        Word::Switch(Flag::NonInteractive)
    } else if tool == Tool::Client && w == "-s"@ {
        Word::Switch(Flag::Shell)
    } else if tool == Tool::Daemon && w == "-f"@ {
        Word::Switch(Flag::NoClientArgv)
    } else if tool == Tool::Daemon && w == "-E"@ {
        Word::Switch(Flag::NoClientEnv)
    } else if tool != Tool::Pwauth && w == "-e"@ {
        Word::Valued(Flag::Env)
    } else if tool != Tool::Client && w == "-o"@ {
        Word::Valued(Flag::Owner)
    } else if tool != Tool::Client && w == "-m"@ {
        Word::Valued(Flag::Mode)
    } else {
        Word::Program
    }
}

/// A command line cut up: the flags, and the words of the program that follows them.
/// There is no program part where the command line asks for help or lacks the value of
/// a flag; the flags up to there are kept.
pub open spec fn cut_words(tool: Tool, words: Seq<Seq<char>>) -> (
    Seq<ItemView>,
    Option<Seq<Seq<char>>>,
)
    decreases words.len(),
{
    if words.len() == 0 {
        (Seq::empty(), Some(Seq::empty()))
    } else {
        match word_kind(tool, words[0]) {
            Word::Help => (Seq::empty(), None),
            Word::Separator => (Seq::empty(), Some(words.skip(1))),
            Word::Program => (Seq::empty(), Some(words)),
            Word::Switch(f) => {
                let (items, program) = cut_words(tool, words.skip(1));
                (seq![ItemView::Switch(f)] + items, program)
            },
            Word::Valued(f) => if words.len() < 2 {
                (Seq::empty(), None)
            } else {
                let (items, program) = cut_words(tool, words.skip(2));
                (seq![ItemView::Value(f, words[1])] + items, program)
            },
        }
    }
}

/// Tells what a word is on the command line of `tool`.
pub fn classify(tool: Tool, w: &str) -> (kind: Word)
    ensures
        kind == word_kind(tool, w@),
{
    if same_text(w, "-h") || same_text(w, "--help") {
        Word::Help
    } else if same_text(w, "--") {
        Word::Separator
    } else if same_text(w, "-S") {
        Word::Valued(Flag::Socket)
    } else if tool == Tool::Client && same_text(w, "-i") {
        Word::Switch(Flag::Interactive)
    } else if tool == Tool::Client && same_text(w, "-n") {
        Word::Switch(Flag::NonInteractive)
    } else if tool == Tool::Client && same_text(w, "-s") {
        Word::Switch(Flag::Shell)
    } else if tool == Tool::Daemon && same_text(w, "-f") {
        Word::Switch(Flag::NoClientArgv)
    } else if tool == Tool::Daemon && same_text(w, "-E") {
        Word::Switch(Flag::NoClientEnv)
    } else if tool != Tool::Pwauth && same_text(w, "-e") {
        Word::Valued(Flag::Env)
    } else if tool != Tool::Client && same_text(w, "-o") {
        Word::Valued(Flag::Owner)
    } else if tool != Tool::Client && same_text(w, "-m") {
        Word::Valued(Flag::Mode)
    } else {
        Word::Program
    }
}

/// Cuts a command line into its flags and the words of the program that follows them.
pub fn cut_command_line(tool: Tool, words: &Vec<String>) -> (parts: (
    Vec<Item>,
    Option<Vec<String>>,
))
    ensures
        item_views(parts.0@) == cut_words(tool, text::texts(words@)).0,
        match parts.1 {
            Some(program) => cut_words(tool, text::texts(words@)).1 == Some(
                text::texts(program@),
            ),
            None => cut_words(tool, text::texts(words@)).1 is None,
        },
{
    let ghost all = text::texts(words@);
    let ghost whole = cut_words(tool, all);
    let mut items: Vec<Item> = Vec::new();
    let mut i: usize = 0;
    assert(all.skip(0) =~= all);
    assert(item_views(items@) + whole.0 =~= whole.0);
    while i < words.len()
        invariant
            all == text::texts(words@),
            whole == cut_words(tool, all),
            i <= words@.len(),
            whole.0 == item_views(items@) + cut_words(tool, all.skip(i as int)).0,
            whole.1 == cut_words(tool, all.skip(i as int)).1,
        decreases words@.len() - i,
    {
        let ghost left = all.skip(i as int);
        let ghost before = items@;
        assert(left[0] == words@[i as int]@);
        match classify(tool, words[i].as_str()) {
            Word::Help => {
                assert(item_views(items@) + Seq::<ItemView>::empty() =~= item_views(items@));
                return (items, None);
            },
            Word::Separator => {
                assert(left.skip(1) =~= all.skip(i + 1));
                assert(item_views(items@) + Seq::<ItemView>::empty() =~= item_views(items@));
                let program = clone_texts_from(words, i + 1);
                return (items, Some(program));
            },
            Word::Program => {
                assert(item_views(items@) + Seq::<ItemView>::empty() =~= item_views(items@));
                let program = clone_texts_from(words, i);
                return (items, Some(program));
            },
            Word::Switch(f) => {
                assert(left.skip(1) =~= all.skip(i + 1));
                items.push(Item::Switch(f));
                assert(item_views(items@) =~= item_views(before).push(ItemView::Switch(f)));
                assert(item_views(before) + (seq![ItemView::Switch(f)] + cut_words(
                    tool,
                    all.skip(i + 1),
                ).0) =~= item_views(items@) + cut_words(tool, all.skip(i + 1)).0);
                i = i + 1;
            },
            Word::Valued(f) => {
                if words.len() - i < 2 {
                    assert(item_views(items@) + Seq::<ItemView>::empty() =~= item_views(items@));
                    return (items, None);
                }
                assert(left.skip(2) =~= all.skip(i + 2));
                assert(left[1] == words@[i + 1]@);
                let value = words[i + 1].clone();
                items.push(Item::Value(f, value));
                assert(item_views(items@) =~= item_views(before).push(
                    ItemView::Value(f, value@),
                ));
                assert(item_views(before) + (seq![ItemView::Value(f, value@)] + cut_words(
                    tool,
                    all.skip(i + 2),
                ).0) =~= item_views(items@) + cut_words(tool, all.skip(i + 2)).0);
                i = i + 2;
            },
        }
    }
    assert(all.skip(i as int) =~= Seq::empty());
    assert(item_views(items@) + Seq::<ItemView>::empty() =~= item_views(items@));
    let program: Vec<String> = Vec::new();
    assert(text::texts(program@) =~= Seq::empty());
    (items, Some(program))
}

/// Why a command line could not be read.
#[derive(Debug)]
pub enum OptionsError {
    /// Help was asked for, or the value of a flag is missing.
    Usage,
    /// An ownership spec that stands for no ids.
    InvalidOwner(String),
    /// A permission mode that is none.
    InvalidMode(String),
}

/// An [`OptionsError`] as a mathematical value.
pub enum OptionsErrorView {
    Usage,
    InvalidOwner(Seq<char>),
    InvalidMode(Seq<char>),
}

impl View for OptionsError {
    type V = OptionsErrorView;

    open spec fn view(&self) -> OptionsErrorView {
        match *self {
            OptionsError::Usage => OptionsErrorView::Usage,
            OptionsError::InvalidOwner(s) => OptionsErrorView::InvalidOwner(s@),
            OptionsError::InvalidMode(s) => OptionsErrorView::InvalidMode(s@),
        }
    }
}

/// The name of a program.
pub open spec fn tool_name(tool: Tool) -> Seq<char> {
    match tool {
        Tool::Client => "capsudo"@,
        Tool::Daemon => "capsudod"@,
        Tool::Pwauth => "capsudod-pwauth"@,
    }
}

/// How a program is called.
pub open spec fn usage_text(tool: Tool) -> Seq<char> {
    match tool {
        Tool::Client =>
            "usage: capsudo [-S socket] [-i|-n] [-s] [-e key=value]... [program [args...]]\ndefault socket: /run/capsudo/default"@,
        Tool::Daemon =>
            "usage: capsudod -S socket [-fE] [-o user[:group]] [-m mode] [-e key=value]... [program [args...]]"@,
        Tool::Pwauth =>
            "usage: capsudod-pwauth -S socket [-o user[:group]] [-m mode] -- capsudod [args...]"@,
    }
}

impl OptionsErrorView {
    /// What the program tells its user.
    pub open spec fn text(self, tool: Tool) -> Seq<char> {
        match self {
            OptionsErrorView::Usage => usage_text(tool),
            OptionsErrorView::InvalidOwner(spec) => tool_name(tool) + ": invalid owner spec: "@
                + spec,
            OptionsErrorView::InvalidMode(spec) => tool_name(tool) + ": invalid mode: "@ + spec,
        }
    }
}

impl Tool {
    /// The name of the program.
    pub fn name(self) -> (s: &'static str)
        ensures
            s@ == tool_name(self),
    {
        match self {
            Tool::Client => "capsudo",
            Tool::Daemon => "capsudod",
            Tool::Pwauth => "capsudod-pwauth",
        }
    }

    /// How the program is called.
    pub fn usage(self) -> (s: &'static str)
        ensures
            s@ == usage_text(self),
    {
        match self {
            Tool::Client =>
                "usage: capsudo [-S socket] [-i|-n] [-s] [-e key=value]... [program [args...]]\ndefault socket: /run/capsudo/default",
            Tool::Daemon =>
                "usage: capsudod -S socket [-fE] [-o user[:group]] [-m mode] [-e key=value]... [program [args...]]",
            Tool::Pwauth =>
                "usage: capsudod-pwauth -S socket [-o user[:group]] [-m mode] -- capsudod [args...]",
        }
    }
}

impl OptionsError {
    /// What the program tells its user.
    pub fn message(&self, tool: Tool) -> (s: String)
        ensures
            s@ == self@.text(tool),
    {
        match self {
            OptionsError::Usage => tool.usage().to_owned(),
            OptionsError::InvalidOwner(spec) => {
                let mut s = join(tool.name(), ": invalid owner spec: ");
                s.append(spec.as_str());
                s
            },
            OptionsError::InvalidMode(spec) => {
                let mut s = join(tool.name(), ": invalid mode: ");
                s.append(spec.as_str());
                s
            },
        }
    }
}

/// The client's options.
pub struct ClientOptions {
    /// The daemon's endpoint.
    pub socket: String,
    /// The session type, where one was forced.
    pub session: Option<SessionType>,
    /// Whether to run a shell in place of the program.
    pub shell: bool,
    /// Environment entries for the program.
    pub env: Vec<String>,
    /// The program and its arguments.
    pub args: Vec<String>,
}

/// [`ClientOptions`] as a mathematical value.
#[verifier::ext_equal]
pub struct ClientOptionsView {
    pub socket: Seq<char>,
    pub session: Option<SessionType>,
    pub shell: bool,
    pub env: Seq<Seq<char>>,
    pub args: Seq<Seq<char>>,
}

impl View for ClientOptions {
    type V = ClientOptionsView;

    open spec fn view(&self) -> ClientOptionsView {
        ClientOptionsView {
            socket: self.socket@,
            session: self.session,
            shell: self.shell,
            env: text::texts(self.env@),
            args: text::texts(self.args@),
        }
    }
}

/// The client's options before any flag.
pub open spec fn client_defaults() -> ClientOptionsView {
    ClientOptionsView {
        socket: "/run/capsudo/default"@,
        session: None,
        shell: false,
        env: Seq::empty(),
        args: Seq::empty(),
    }
}

/// What one flag does to the client's options. A later flag overrides an earlier one,
/// but environment entries add up.
pub open spec fn client_apply(o: ClientOptionsView, item: ItemView) -> ClientOptionsView {
    match item {
        ItemView::Switch(Flag::Interactive) => ClientOptionsView {
            session: Some(SessionType::Interactive),
            ..o
        },
        ItemView::Switch(Flag::NonInteractive) => ClientOptionsView {
            session: Some(SessionType::NonInteractive),
            ..o
        },
        ItemView::Switch(Flag::Shell) => ClientOptionsView { shell: true, ..o },
        ItemView::Value(Flag::Socket, s) => ClientOptionsView { socket: s, ..o },
        ItemView::Value(Flag::Env, s) => ClientOptionsView { env: o.env.push(s), ..o },
        _ => o,
    }
}

/// What a list of flags does to the client's default options.
pub open spec fn client_fold(items: Seq<ItemView>) -> ClientOptionsView
    decreases items.len(),
{
    if items.len() == 0 {
        client_defaults()
    } else {
        client_apply(client_fold(items.drop_last()), items.last())
    }
}

/// The client's options on a command line, or `None` where it has to be told how to be
/// called.
pub open spec fn client_options(words: Seq<Seq<char>>) -> Option<ClientOptionsView> {
    let (items, program) = cut_words(Tool::Client, words);
    match program {
        Some(args) => Some(ClientOptionsView { args, ..client_fold(items) }),
        None => None,
    }
}

/// Reads the client's command line, without the program's own name.
pub fn parse_client_options(words: &Vec<String>) -> (r: Result<ClientOptions, OptionsError>)
    ensures
        match r {
            Ok(o) => client_options(text::texts(words@)) == Some(o@),
            Err(e) => client_options(text::texts(words@)) is None && e is Usage,
        },
{
    let (items, program) = cut_command_line(Tool::Client, words);
    let args = match program {
        Some(args) => args,
        None => return Err(OptionsError::Usage),
    };
    let mut o = ClientOptions {
        socket: "/run/capsudo/default".to_owned(),
        session: None,
        shell: false,
        env: Vec::new(),
        args: Vec::new(),
    };
    let ghost views = item_views(items@);
    let mut i: usize = 0;
    assert(views.take(0) =~= Seq::empty());
    assert(o@ =~= client_defaults());
    while i < items.len()
        invariant
            views == item_views(items@),
            i <= items@.len(),
            o@ == client_fold(views.take(i as int)),
        decreases items@.len() - i,
    {
        let ghost before = o@;
        let ghost env = o.env@;
        assert(views.take(i + 1).drop_last() =~= views.take(i as int));
        assert(views.take(i + 1).last() == items@[i as int]@);
        match &items[i] {
            Item::Switch(f) => match f {
                Flag::Interactive => {
                    o.session = Some(SessionType::Interactive);
                },
                Flag::NonInteractive => {
                    o.session = Some(SessionType::NonInteractive);
                },
                Flag::Shell => {
                    o.shell = true;
                },
                _ => {},
            },
            Item::Value(f, value) => match f {
                Flag::Socket => {
                    o.socket = value.clone();
                },
                Flag::Env => {
                    o.env.push(value.clone());
                    assert(text::texts(o.env@) =~= text::texts(env).push(value@));
                },
                _ => {},
            },
        }
        assert(o@ =~= client_apply(before, items@[i as int]@));
        i = i + 1;
    }
    assert(views.take(i as int) =~= views);
    o.args = args;
    assert(o@ =~= client_options(text::texts(words@)).unwrap());
    Ok(o)
}

/// The options of a listening program: the daemon, or the authenticating front-end,
/// which has fewer flags.
pub struct ServerOptions {
    /// The endpoint to listen on, where one was given.
    pub socket: Option<String>,
    /// Environment entries for the program.
    pub env: Vec<String>,
    /// The endpoint's owner, where one is to be set.
    pub uid: Option<u32>,
    /// The endpoint's group, where one is to be set.
    pub gid: Option<u32>,
    /// The endpoint's permission mode.
    pub mode: u32,
    /// Whether to ignore the client's arguments.
    pub no_client_argv: bool,
    /// Whether to ignore the client's environment.
    pub no_client_env: bool,
    /// The program and its arguments.
    pub program: Vec<String>,
}

/// [`ServerOptions`] as a mathematical value.
#[verifier::ext_equal]
pub struct ServerOptionsView {
    pub socket: Option<Seq<char>>,
    pub env: Seq<Seq<char>>,
    pub uid: Option<u32>,
    pub gid: Option<u32>,
    pub mode: u32,
    pub no_client_argv: bool,
    pub no_client_env: bool,
    pub program: Seq<Seq<char>>,
}

impl View for ServerOptions {
    type V = ServerOptionsView;

    open spec fn view(&self) -> ServerOptionsView {
        ServerOptionsView {
            socket: match self.socket {
                Some(s) => Some(s@),
                None => None,
            },
            env: text::texts(self.env@),
            uid: self.uid,
            gid: self.gid,
            mode: self.mode,
            no_client_argv: self.no_client_argv,
            no_client_env: self.no_client_env,
            program: text::texts(self.program@),
        }
    }
}

/// The options of a listening program before any flag: mode `0770`, and nothing else.
pub open spec fn server_defaults() -> ServerOptionsView {
    ServerOptionsView {
        socket: None,
        env: Seq::empty(),
        uid: None,
        gid: None,
        mode: 504,
        no_client_argv: false,
        no_client_env: false,
        program: Seq::empty(),
    }
}

/// What one flag does to the options of a listening program. `ids` are the ids that
/// stand for the ownership spec, where the flag gives one.
pub open spec fn server_apply(
    o: ServerOptionsView,
    item: ItemView,
    ids: Option<(Option<u32>, Option<u32>)>,
) -> Result<ServerOptionsView, OptionsErrorView> {
    match item {
        ItemView::Switch(Flag::NoClientArgv) => Ok(ServerOptionsView { no_client_argv: true, ..o }),
        ItemView::Switch(Flag::NoClientEnv) => Ok(ServerOptionsView { no_client_env: true, ..o }),
        ItemView::Value(Flag::Socket, s) => Ok(ServerOptionsView { socket: Some(s), ..o }),
        ItemView::Value(Flag::Env, s) => Ok(ServerOptionsView { env: o.env.push(s), ..o }),
        ItemView::Value(Flag::Owner, s) => match ids {
            Some((uid, gid)) => Ok(ServerOptionsView { uid, gid, ..o }),
            None => Err(OptionsErrorView::InvalidOwner(s)),
        },
        ItemView::Value(Flag::Mode, s) => match ownerspec::mode_value(s) {
            Some(mode) => Ok(ServerOptionsView { mode, ..o }),
            None => Err(OptionsErrorView::InvalidMode(s)),
        },
        _ => Ok(o),
    }
}

/// What a list of flags does to the default options of a listening program, where
/// `ids[i]` are the ids for the ownership spec of flag `i`, if it gives one. The first
/// flag that cannot be applied decides the error.
pub open spec fn server_fold(
    items: Seq<ItemView>,
    ids: Seq<Option<(Option<u32>, Option<u32>)>>,
) -> Result<ServerOptionsView, OptionsErrorView>
    decreases items.len(),
{
    if items.len() == 0 {
        Ok(server_defaults())
    } else {
        match server_fold(items.drop_last(), ids) {
            Ok(o) => server_apply(o, items.last(), ids[items.len() - 1]),
            Err(e) => Err(e),
        }
    }
}

/// The options of a listening program on a command line.
pub open spec fn server_options(
    tool: Tool,
    words: Seq<Seq<char>>,
    ids: Seq<Option<(Option<u32>, Option<u32>)>>,
) -> Result<ServerOptionsView, OptionsErrorView> {
    let (items, program) = cut_words(tool, words);
    match server_fold(items, ids) {
        Ok(o) => match program {
            Some(program) => Ok(ServerOptionsView { program, ..o }),
            None => Err(OptionsErrorView::Usage),
        },
        Err(e) => Err(e),
    }
}

/// Whether `ids` can be what the ownership specs among the flags stand for on some
/// machine.
pub open spec fn ids_possible(
    items: Seq<ItemView>,
    ids: Seq<Option<(Option<u32>, Option<u32>)>>,
) -> bool {
    &&& ids.len() == items.len()
    &&& forall|i: int|
        #![trigger items[i]]
        0 <= i < items.len() ==> (items[i] matches ItemView::Value(Flag::Owner, spec)
            ==> ownerspec::owner_possible(spec, ids[i]))
}

/// Whether `ids` are what the lookups for the ownership specs among the flags answer. A flag
/// behind one that cannot be applied is not looked at.
pub open spec fn ids_answered(
    items: Seq<ItemView>,
    ids: Seq<Option<(Option<u32>, Option<u32>)>>,
) -> bool {
    forall|i: int|
        #![trigger items[i]]
        0 <= i < items.len() && server_fold(items.take(i), ids) is Ok ==> (
        items[i] matches ItemView::Value(Flag::Owner, spec) ==> ownerspec::owner_answered(
            spec,
            ids[i],
        ))
}

/// Whether `r` is what a command line of a listening program says on this machine.
pub open spec fn server_possible(
    tool: Tool,
    words: Seq<Seq<char>>,
    r: Result<ServerOptionsView, OptionsErrorView>,
) -> bool {
    exists|ids: Seq<Option<(Option<u32>, Option<u32>)>>| #[trigger]
        ids_possible(cut_words(tool, words).0, ids) && ids_answered(
            cut_words(tool, words).0,
            ids,
        ) && r == server_options(tool, words, ids)
}

/// The result of reading options, as a mathematical value.
pub open spec fn server_result(r: Result<ServerOptions, OptionsError>) -> Result<
    ServerOptionsView,
    OptionsErrorView,
> {
    match r {
        Ok(o) => Ok(o@),
        Err(e) => Err(e@),
    }
}

/// Applies one flag to the options of a listening program. `ids` are the ids that stand
/// for the ownership spec, where the flag gives one.
pub fn apply_server_item(
    o: ServerOptions,
    item: &Item,
    ids: Option<(Option<u32>, Option<u32>)>,
) -> (r: Result<ServerOptions, OptionsError>)
    ensures
        server_result(r) == server_apply(o@, item@, ids),
{
    let mut o = o;
    let ghost before = o@;
    let ghost env = o.env@;
    match item {
        Item::Switch(f) => match f {
            Flag::NoClientArgv => {
                o.no_client_argv = true;
            },
            Flag::NoClientEnv => {
                o.no_client_env = true;
            },
            _ => {},
        },
        Item::Value(f, value) => match f {
            Flag::Socket => {
                o.socket = Some(value.clone());
            },
            Flag::Env => {
                o.env.push(value.clone());
                assert(text::texts(o.env@) =~= text::texts(env).push(value@));
            },
            Flag::Owner => match ids {
                Some((uid, gid)) => {
                    o.uid = uid;
                    o.gid = gid;
                },
                None => {
                    return Err(OptionsError::InvalidOwner(value.clone()));
                },
            },
            Flag::Mode => match parse_mode(value.as_str()) {
                Some(mode) => {
                    o.mode = mode;
                },
                None => {
                    return Err(OptionsError::InvalidMode(value.clone()));
                },
            },
            _ => {},
        },
    }
    assert(o@ =~= server_apply(before, item@, ids)->Ok_0);
    Ok(o)
}

/// The ids for the ownership spec of a flag, looked up on this machine, where it gives
/// one.
fn item_ids(item: &Item) -> (ids: Option<(Option<u32>, Option<u32>)>)
    ensures
        item@ matches ItemView::Value(Flag::Owner, spec) ==> ownerspec::owner_possible(spec, ids),
        item@ matches ItemView::Value(Flag::Owner, spec) ==> ownerspec::owner_answered(spec, ids),
        item@ matches ItemView::Value(Flag::Owner, spec) ==> (ownerspec::owner_is_numeric(spec)
            ==> ids == ownerspec::owner_ids(spec, None, None)),
{
    match item {
        Item::Value(f, value) => match f {
            Flag::Owner => parse_owner_spec(value.as_str()),
            _ => None,
        },
        _ => None,
    }
}

/// Nothing that follows a flag which cannot be applied changes the error.
proof fn server_fold_error(items: Seq<ItemView>, ids: Seq<Option<(Option<u32>, Option<u32>)>>, k: int)
    requires
        0 <= k <= items.len(),
        server_fold(items.take(k), ids) is Err,
    ensures
        server_fold(items, ids) == server_fold(items.take(k), ids),
    decreases items.len() - k,
{
    if k == items.len() {
        assert(items.take(k) =~= items);
    } else {
        assert(items.take(k + 1).drop_last() =~= items.take(k));
        server_fold_error(items, ids, k + 1);
    }
}

/// The ids of flags that are not reached do not matter.
proof fn server_fold_prefix(
    items: Seq<ItemView>,
    a: Seq<Option<(Option<u32>, Option<u32>)>>,
    b: Seq<Option<(Option<u32>, Option<u32>)>>,
)
    requires
        items.len() <= a.len(),
        items.len() <= b.len(),
        forall|i: int| 0 <= i < items.len() ==> a[i] == b[i],
    ensures
        server_fold(items, a) == server_fold(items, b),
    decreases items.len(),
{
    if items.len() > 0 {
        server_fold_prefix(items.drop_last(), a, b);
    }
}

/// The ids that a flag gives without a look at any database.
pub open spec fn numeric_id(item: ItemView) -> Option<(Option<u32>, Option<u32>)> {
    match item {
        ItemView::Value(Flag::Owner, spec) => ownerspec::owner_ids(spec, None, None),
        _ => None,
    }
}

/// The ids that flags give without a look at any database.
pub open spec fn numeric_ids(items: Seq<ItemView>) -> Seq<Option<(Option<u32>, Option<u32>)>> {
    items.map_values(|item: ItemView| numeric_id(item))
}

/// Whether no ownership spec among the flags names a user or a group.
pub open spec fn all_numeric(items: Seq<ItemView>) -> bool {
    forall|i: int|
        #![trigger items[i]]
        0 <= i < items.len() ==> (items[i] matches ItemView::Value(Flag::Owner, spec)
            ==> ownerspec::owner_is_numeric(spec))
}

/// Ids that were looked up for the first flags, completed for the others.
proof fn complete_ids(items: Seq<ItemView>, ids: Seq<Option<(Option<u32>, Option<u32>)>>) -> (all:
    Seq<Option<(Option<u32>, Option<u32>)>>)
    requires
        ids.len() <= items.len(),
        ids_possible(items.take(ids.len() as int), ids),
    ensures
        ids_possible(items, all),
        all.take(ids.len() as int) == ids,
        all_numeric(items) && ids == numeric_ids(items.take(ids.len() as int)) ==> all
            == numeric_ids(items),
{
    let k = ids.len() as int;
    let all = ids + numeric_ids(items.skip(k));
    assert(all.take(k) =~= ids);
    assert forall|i: int| #![trigger items[i]] 0 <= i < items.len() implies (
    items[i] matches ItemView::Value(Flag::Owner, spec) ==> ownerspec::owner_possible(
        spec,
        all[i],
    )) by {
        if i < k {
            assert(items.take(k)[i] == items[i]);
        } else {
            assert(items.skip(k)[i - k] == items[i]);
            if let ItemView::Value(Flag::Owner, spec) = items[i] {
                assert(ownerspec::owner_lookups_possible(spec, None, None));
            }
        }
    }
    if all_numeric(items) && ids == numeric_ids(items.take(k)) {
        assert(all =~= numeric_ids(items));
    }
    all
}

/// Reads the command line of a listening program, looking up named owners on this
/// machine.
fn parse_server_options(tool: Tool, words: &Vec<String>) -> (r: Result<ServerOptions, OptionsError>)
    ensures
        server_possible(tool, text::texts(words@), server_result(r)),
        all_numeric(cut_words(tool, text::texts(words@)).0) ==> server_result(r) == server_options(
            tool,
            text::texts(words@),
            numeric_ids(cut_words(tool, text::texts(words@)).0),
        ),
{
    let (items, program) = cut_command_line(tool, words);
    let mut o = ServerOptions {
        socket: None,
        env: Vec::new(),
        uid: None,
        gid: None,
        mode: 0o770,
        no_client_argv: false,
        no_client_env: false,
        program: Vec::new(),
    };
    let ghost views = item_views(items@);
    let ghost mut ids: Seq<Option<(Option<u32>, Option<u32>)>> = Seq::empty();
    let mut i: usize = 0;
    assert(views.take(0) =~= Seq::empty());
    assert(numeric_ids(views.take(0)) =~= Seq::empty());
    assert(o@ =~= server_defaults());
    while i < items.len()
        invariant
            views == item_views(items@),
            views == cut_words(tool, text::texts(words@)).0,
            i <= items@.len(),
            ids.len() == i,
            ids_possible(views.take(i as int), ids),
            forall|k: int|
                #![trigger views[k]]
                0 <= k < i ==> (views[k] matches ItemView::Value(Flag::Owner, spec)
                    ==> ownerspec::owner_answered(spec, ids[k])),
            all_numeric(views) ==> ids == numeric_ids(views.take(i as int)),
            server_fold(views.take(i as int), ids) == Ok::<ServerOptionsView, OptionsErrorView>(o@),
        decreases items@.len() - i,
    {
        let ghost old_ids = ids;
        let ghost upto = views.take(i + 1);
        let found = item_ids(&items[i]);
        proof {
            ids = ids.push(
                match views[i as int] {
                    ItemView::Value(Flag::Owner, spec) => found,
                    _ => None,
                },
            );
            assert(upto.drop_last() =~= views.take(i as int));
            assert(upto.last() == items@[i as int]@);
            server_fold_prefix(views.take(i as int), old_ids, ids);
            assert forall|k: int| #![trigger upto[k]] 0 <= k < upto.len() implies (
            upto[k] matches ItemView::Value(Flag::Owner, spec) ==> ownerspec::owner_possible(
                spec,
                ids[k],
            )) by {
                if k < i {
                    assert(views.take(i as int)[k] == upto[k]);
                }
            }
            if all_numeric(views) {
                assert(upto[i as int] == views[i as int]);
                assert(numeric_ids(upto) =~= numeric_ids(views.take(i as int)).push(
                    numeric_id(views[i as int]),
                ));
            }
            assert(server_apply(o@, upto.last(), found) == server_apply(
                o@,
                upto.last(),
                ids[i as int],
            ));
        }
        match apply_server_item(o, &items[i], found) {
            Ok(next) => {
                o = next;
            },
            Err(e) => {
                proof {
                    let all = complete_ids(views, ids);
                    assert(all.take(i + 1)[i as int] == ids[i as int]);
                    assert forall|k: int| 0 <= k < upto.len() implies ids[k] == all[k] by {
                        assert(all.take(i + 1)[k] == ids[k]);
                    }
                    server_fold_prefix(upto, ids, all);
                    server_fold_error(views, all, i + 1);
                    assert forall|k: int|
                        #![trigger views[k]]
                        0 <= k < views.len() && server_fold(views.take(k), all) is Ok implies (
                    views[k] matches ItemView::Value(Flag::Owner, spec)
                        ==> ownerspec::owner_answered(spec, all[k])) by {
                        if k > i {
                            server_fold_error(views.take(k), all, i + 1);
                            assert(views.take(k).take(i + 1) =~= upto);
                        } else {
                            assert(all.take(i + 1)[k] == ids[k]);
                        }
                    }
                }
                return Err(e);
            },
        }
        i = i + 1;
    }
    assert(views.take(i as int) =~= views);
    match program {
        Some(program) => {
            o.program = program;
            assert(o@ =~= server_options(tool, text::texts(words@), ids)->Ok_0);
            Ok(o)
        },
        None => Err(OptionsError::Usage),
    }
}

/// Reads the daemon's command line, without the program's own name. Named owners are
/// looked up on this machine.
pub fn parse_daemon_options(words: &Vec<String>) -> (r: Result<ServerOptions, OptionsError>)
    ensures
        server_possible(Tool::Daemon, text::texts(words@), server_result(r)),
        all_numeric(cut_words(Tool::Daemon, text::texts(words@)).0) ==> server_result(r)
            == server_options(
            Tool::Daemon,
            text::texts(words@),
            numeric_ids(cut_words(Tool::Daemon, text::texts(words@)).0),
        ),
{
    parse_server_options(Tool::Daemon, words)
}

/// How the daemon meets its clients.
pub enum DaemonMode {
    /// It listens on an endpoint, one session per connection.
    Listen {
        /// The endpoint.
        socket: String,
        /// The endpoint's owner, where one is to be set.
        uid: Option<u32>,
        /// The endpoint's group, where one is to be set.
        gid: Option<u32>,
        /// The endpoint's permission mode.
        mode: u32,
    },
    /// It serves the one connection that is its standard input, as behind an
    /// authenticating front-end.
    OneShot,
}

/// A [`DaemonMode`] as a mathematical value.
pub enum DaemonModeView {
    Listen { socket: Seq<char>, uid: Option<u32>, gid: Option<u32>, mode: u32 },
    OneShot,
}

impl View for DaemonMode {
    type V = DaemonModeView;

    open spec fn view(&self) -> DaemonModeView {
        match *self {
            DaemonMode::Listen { socket, uid, gid, mode } => DaemonModeView::Listen {
                socket: socket@,
                uid,
                gid,
                mode,
            },
            DaemonMode::OneShot => DaemonModeView::OneShot,
        }
    }
}

impl ServerOptionsView {
    /// The daemon listens where it was given an endpoint, and else serves its standard
    /// input.
    pub open spec fn daemon_mode(self) -> DaemonModeView {
        match self.socket {
            Some(socket) => DaemonModeView::Listen {
                socket,
                uid: self.uid,
                gid: self.gid,
                mode: self.mode,
            },
            None => DaemonModeView::OneShot,
        }
    }

    /// The daemon's policy.
    pub open spec fn daemon_config(self) -> DaemonConfigView {
        DaemonConfigView {
            fixed_args: self.program,
            fixed_env: self.env,
            no_client_argv: self.no_client_argv,
            no_client_env: self.no_client_env,
        }
    }

    /// What the authenticating front-end makes of its options: an endpoint is required,
    /// and the daemon to chain to is `capsudod` unless another command is given.
    pub open spec fn pwauth(self) -> Result<PwauthOptionsView, OptionsErrorView> {
        match self.socket {
            Some(socket) => Ok(
                PwauthOptionsView {
                    socket,
                    uid: self.uid,
                    gid: self.gid,
                    mode: self.mode,
                    capsudod_cmd: if self.program.len() == 0 {
                        seq!["capsudod"@]
                    } else {
                        self.program
                    },
                },
            ),
            None => Err(OptionsErrorView::Usage),
        }
    }
}

impl ServerOptions {
    /// How the daemon meets its clients, and the policy that it applies to them.
    pub fn into_daemon(self) -> (r: (DaemonMode, DaemonConfig))
        ensures
            r.0@ == self@.daemon_mode(),
            r.1@ == self@.daemon_config(),
    {
        let mode = match self.socket {
            Some(socket) => DaemonMode::Listen {
                socket,
                uid: self.uid,
                gid: self.gid,
                mode: self.mode,
            },
            None => DaemonMode::OneShot,
        };
        let config = DaemonConfig {
            fixed_args: self.program,
            fixed_env: self.env,
            no_client_argv: self.no_client_argv,
            no_client_env: self.no_client_env,
        };
        (mode, config)
    }

    /// The options of the authenticating front-end.
    pub fn into_pwauth(self) -> (r: Result<PwauthOptions, OptionsError>)
        ensures
            pwauth_result(r) == self@.pwauth(),
    {
        let socket = match self.socket {
            Some(socket) => socket,
            None => return Err(OptionsError::Usage),
        };
        let mut capsudod_cmd = self.program;
        if capsudod_cmd.is_empty() {
            capsudod_cmd.push("capsudod".to_owned());
            assert(text::texts(capsudod_cmd@) =~= seq!["capsudod"@]);
        }
        Ok(PwauthOptions { socket, uid: self.uid, gid: self.gid, mode: self.mode, capsudod_cmd })
    }
}

/// The options of the authenticating front-end.
pub struct PwauthOptions {
    /// The endpoint to listen on.
    pub socket: String,
    /// The endpoint's owner, where one is to be set.
    pub uid: Option<u32>,
    /// The endpoint's group, where one is to be set.
    pub gid: Option<u32>,
    /// The endpoint's permission mode.
    pub mode: u32,
    /// The daemon to chain to, with its arguments.
    pub capsudod_cmd: Vec<String>,
}

/// [`PwauthOptions`] as a mathematical value.
#[verifier::ext_equal]
pub struct PwauthOptionsView {
    pub socket: Seq<char>,
    pub uid: Option<u32>,
    pub gid: Option<u32>,
    pub mode: u32,
    pub capsudod_cmd: Seq<Seq<char>>,
}

impl View for PwauthOptions {
    type V = PwauthOptionsView;

    open spec fn view(&self) -> PwauthOptionsView {
        PwauthOptionsView {
            socket: self.socket@,
            uid: self.uid,
            gid: self.gid,
            mode: self.mode,
            capsudod_cmd: text::texts(self.capsudod_cmd@),
        }
    }
}

/// The result of reading the front-end's options, as a mathematical value.
pub open spec fn pwauth_result(r: Result<PwauthOptions, OptionsError>) -> Result<
    PwauthOptionsView,
    OptionsErrorView,
> {
    match r {
        Ok(o) => Ok(o@),
        Err(e) => Err(e@),
    }
}

/// What the authenticating front-end makes of the options on its command line.
pub open spec fn pwauth_of(r: Result<ServerOptionsView, OptionsErrorView>) -> Result<
    PwauthOptionsView,
    OptionsErrorView,
> {
    match r {
        Ok(o) => o.pwauth(),
        Err(e) => Err(e),
    }
}

/// Reads the command line of the authenticating front-end, without the program's own
/// name. Named owners are looked up on this machine.
pub fn parse_pwauth_options(words: &Vec<String>) -> (r: Result<PwauthOptions, OptionsError>)
    ensures
        exists|o: Result<ServerOptionsView, OptionsErrorView>| #[trigger]
            server_possible(Tool::Pwauth, text::texts(words@), o) && pwauth_result(r) == pwauth_of(
                o,
            ),
        all_numeric(cut_words(Tool::Pwauth, text::texts(words@)).0) ==> pwauth_result(r)
            == pwauth_of(
            server_options(
                Tool::Pwauth,
                text::texts(words@),
                numeric_ids(cut_words(Tool::Pwauth, text::texts(words@)).0),
            ),
        ),
{
    match parse_server_options(Tool::Pwauth, words) {
        Ok(o) => o.into_pwauth(),
        Err(e) => Err(e),
    }
}

/// Whether words are flags only, each with its value if it takes one.
pub open spec fn flags_only(tool: Tool, words: Seq<Seq<char>>) -> bool
    decreases words.len(),
{
    if words.len() == 0 {
        true
    } else {
        match word_kind(tool, words[0]) {
            Word::Switch(_) => flags_only(tool, words.skip(1)),
            Word::Valued(_) => words.len() >= 2 && flags_only(tool, words.skip(2)),
            _ => false,
        }
    }
}

/// Words behind flags are cut as if they stood alone.
proof fn flags_come_off(tool: Tool, flags: Seq<Seq<char>>, rest: Seq<Seq<char>>)
    requires
        flags_only(tool, flags),
    ensures
        cut_words(tool, flags + rest).0 == cut_words(tool, flags).0 + cut_words(tool, rest).0,
        cut_words(tool, flags + rest).1 == cut_words(tool, rest).1,
    decreases flags.len(),
{
    let all = flags + rest;
    if flags.len() == 0 {
        assert(all =~= rest);
        assert(cut_words(tool, flags).0 + cut_words(tool, rest).0 =~= cut_words(tool, rest).0);
    } else {
        let n: int = match word_kind(tool, flags[0]) {
            Word::Switch(_) => 1,
            _ => 2,
        };
        assert(all.skip(n) =~= flags.skip(n) + rest);
        assert(all[0] == flags[0]);
        flags_come_off(tool, flags.skip(n), rest);
        assert(cut_words(tool, all).0 =~= cut_words(tool, flags).0 + cut_words(tool, rest).0);
    }
}

/// The program's own words are left alone: behind `--`, and from the first word on that is
/// no flag, everything belongs to the program, whatever it looks like.
pub proof fn program_words_are_kept(
    tool: Tool,
    flags: Seq<Seq<char>>,
    program: Seq<Seq<char>>,
)
    requires
        flags_only(tool, flags),
    ensures
        cut_words(tool, flags + (seq!["--"@] + program)) == (
            cut_words(tool, flags).0,
            Some(program),
        ),
        program.len() > 0 && word_kind(tool, program[0]) == Word::Program ==> cut_words(
            tool,
            flags + program,
        ) == (cut_words(tool, flags).0, Some(program)),
{
    let items = cut_words(tool, flags).0;
    let behind = seq!["--"@] + program;
    reveal_strlit("--");
    reveal_strlit("-h");
    reveal_strlit("--help");
    assert("--"@[1] != "-h"@[1]);
    assert("--"@.len() != "--help"@.len());
    assert(word_kind(tool, "--"@) == Word::Separator);
    flags_come_off(tool, flags, behind);
    assert(behind.skip(1) =~= program);
    assert(items + Seq::<ItemView>::empty() =~= items);
    if program.len() > 0 && word_kind(tool, program[0]) == Word::Program {
        flags_come_off(tool, flags, program);
    }
}

/// The words that are flags, for each tool. `-h`, `--help`, `--` and `-S` are known to all
/// three; `-i`, `-n` and `-s` to the client; `-f` and `-E` to the daemon; `-e` to both of
/// them; `-o` and `-m` to the daemon and to the front-end. Any other word begins the program.
pub proof fn flags_are_known(tool: Tool, w: Seq<char>)
    ensures
        word_kind(tool, "-h"@) == Word::Help,
        word_kind(tool, "--help"@) == Word::Help,
        word_kind(tool, "--"@) == Word::Separator,
        word_kind(tool, "-S"@) == Word::Valued(Flag::Socket),
        word_kind(Tool::Client, "-i"@) == Word::Switch(Flag::Interactive),
        word_kind(Tool::Client, "-n"@) == Word::Switch(Flag::NonInteractive),
        word_kind(Tool::Client, "-s"@) == Word::Switch(Flag::Shell),
        word_kind(Tool::Daemon, "-f"@) == Word::Switch(Flag::NoClientArgv),
        word_kind(Tool::Daemon, "-E"@) == Word::Switch(Flag::NoClientEnv),
        tool != Tool::Pwauth ==> word_kind(tool, "-e"@) == Word::Valued(Flag::Env),
        tool != Tool::Client ==> word_kind(tool, "-o"@) == Word::Valued(Flag::Owner),
        tool != Tool::Client ==> word_kind(tool, "-m"@) == Word::Valued(Flag::Mode),
        w.len() != 2 && w != "--help"@ ==> word_kind(tool, w) == Word::Program,
        w.len() > 0 && w[0] != '-' ==> word_kind(tool, w) == Word::Program,
        w.len() == 2 && w[0] == '-' ==> (match tool {
            Tool::Client => !(w[1] == '-' || w[1] == 'h' || w[1] == 'S' || w[1] == 'i' || w[1]
                == 'n' || w[1] == 's' || w[1] == 'e'),
            Tool::Daemon => !(w[1] == '-' || w[1] == 'h' || w[1] == 'S' || w[1] == 'f' || w[1]
                == 'E' || w[1] == 'e' || w[1] == 'o' || w[1] == 'm'),
            Tool::Pwauth => !(w[1] == '-' || w[1] == 'h' || w[1] == 'S' || w[1] == 'o' || w[1]
                == 'm'),
        } ==> word_kind(tool, w) == Word::Program),
{
    reveal_strlit("-h");
    reveal_strlit("--help");
    reveal_strlit("--");
    reveal_strlit("-S");
    reveal_strlit("-i");
    reveal_strlit("-n");
    reveal_strlit("-s");
    reveal_strlit("-f");
    reveal_strlit("-E");
    reveal_strlit("-e");
    reveal_strlit("-o");
    reveal_strlit("-m");
    assert("--help"@.len() == 6);
    assert("-h"@.len() == 2 && "-h"@[0] == '-' && "-h"@[1] == 'h');
    assert("--"@.len() == 2 && "--"@[0] == '-' && "--"@[1] == '-');
    assert("-S"@.len() == 2 && "-S"@[0] == '-' && "-S"@[1] == 'S');
    assert("-i"@.len() == 2 && "-i"@[0] == '-' && "-i"@[1] == 'i');
    assert("-n"@.len() == 2 && "-n"@[0] == '-' && "-n"@[1] == 'n');
    assert("-s"@.len() == 2 && "-s"@[0] == '-' && "-s"@[1] == 's');
    assert("-f"@.len() == 2 && "-f"@[0] == '-' && "-f"@[1] == 'f');
    assert("-E"@.len() == 2 && "-E"@[0] == '-' && "-E"@[1] == 'E');
    assert("-e"@.len() == 2 && "-e"@[0] == '-' && "-e"@[1] == 'e');
    assert("-o"@.len() == 2 && "-o"@[0] == '-' && "-o"@[1] == 'o');
    assert("-m"@.len() == 2 && "-m"@[0] == '-' && "-m"@[1] == 'm');
    assert("--help"@[0] == '-');
}

/// What the words behind the flags do: they come as one more flag, or as the program, or as
/// a call for help.
proof fn one_more(tool: Tool, flags: Seq<Seq<char>>, w: Seq<char>, value: Seq<char>)
    requires
        flags_only(tool, flags),
    ensures
        cut_words(tool, flags).1 == Some(Seq::<Seq<char>>::empty()),
        word_kind(tool, w) matches Word::Switch(f) ==> cut_words(tool, flags + seq![w]) == (
            cut_words(tool, flags).0.push(ItemView::Switch(f)),
            Some(Seq::<Seq<char>>::empty()),
        ),
        word_kind(tool, w) matches Word::Valued(f) ==> cut_words(tool, flags + seq![w, value]) == (
            cut_words(tool, flags).0.push(ItemView::Value(f, value)),
            Some(Seq::<Seq<char>>::empty()),
        ) && cut_words(tool, flags + seq![w]).1 is None,
        word_kind(tool, w) is Help ==> cut_words(tool, flags + seq![w]).1 is None,
{
    reveal_with_fuel(cut_words, 2);
    let none = Seq::<Seq<char>>::empty();
    flags_come_off(tool, flags, none);
    assert(flags + none =~= flags);
    flags_come_off(tool, flags, seq![w]);
    flags_come_off(tool, flags, seq![w, value]);
    assert(seq![w].skip(1) =~= none);
    assert(seq![w, value].skip(2) =~= none);
    if let Word::Switch(f) = word_kind(tool, w) {
        assert(cut_words(tool, seq![w]).0 =~= seq![ItemView::Switch(f)]);
        assert(cut_words(tool, flags + seq![w]).0 =~= cut_words(tool, flags).0.push(
            ItemView::Switch(f),
        ));
    }
    if let Word::Valued(f) = word_kind(tool, w) {
        assert(cut_words(tool, seq![w, value]).0 =~= seq![ItemView::Value(f, value)]);
        assert(cut_words(tool, flags + seq![w, value]).0 =~= cut_words(tool, flags).0.push(
            ItemView::Value(f, value),
        ));
    }
}

/// Without words the client asks the default socket for the program that the daemon holds,
/// and leaves the kind of session open.
pub proof fn client_starts_from_defaults()
    ensures
        client_options(Seq::empty()) == Some(
            (ClientOptionsView {
                socket: "/run/capsudo/default"@,
                session: None,
                shell: false,
                env: Seq::empty(),
                args: Seq::empty(),
            }),
        ),
{
}

/// Each flag of the client changes one thing and leaves the rest. Of `-i` and `-n` the last
/// one counts, and of several sockets the last; `-e` adds behind the variables that are
/// there. A flag without its value, and a call for help, give no options.
pub proof fn client_flags_do_one_thing(flags: Seq<Seq<char>>, s: Seq<char>)
    requires
        flags_only(Tool::Client, flags),
    ensures
        client_options(flags) is Some,
        ({
            let o = client_options(flags).unwrap();
            &&& o.args.len() == 0
            &&& client_options(flags + seq!["-i"@]) == Some(
                (ClientOptionsView { session: Some(SessionType::Interactive), ..o }),
            )
            &&& client_options(flags + seq!["-n"@]) == Some(
                (ClientOptionsView { session: Some(SessionType::NonInteractive), ..o }),
            )
            &&& client_options(flags + seq!["-s"@]) == Some(
                (ClientOptionsView { shell: true, ..o }),
            )
            &&& client_options(flags + seq!["-S"@, s]) == Some(
                (ClientOptionsView { socket: s, ..o }),
            )
            &&& client_options(flags + seq!["-e"@, s]) == Some(
                (ClientOptionsView { env: o.env.push(s), ..o }),
            )
        }),
        client_options(flags + seq!["-S"@]) is None,
        client_options(flags + seq!["-e"@]) is None,
        client_options(flags + seq!["-h"@]) is None,
        client_options(flags + seq!["--help"@]) is None,
{
    flags_are_known(Tool::Client, s);
    let items = cut_words(Tool::Client, flags).0;
    one_more(Tool::Client, flags, "-i"@, s);
    one_more(Tool::Client, flags, "-n"@, s);
    one_more(Tool::Client, flags, "-s"@, s);
    one_more(Tool::Client, flags, "-S"@, s);
    one_more(Tool::Client, flags, "-e"@, s);
    one_more(Tool::Client, flags, "-h"@, s);
    one_more(Tool::Client, flags, "--help"@, s);
    assert(items.push(ItemView::Switch(Flag::Interactive)).drop_last() =~= items);
    assert(items.push(ItemView::Switch(Flag::NonInteractive)).drop_last() =~= items);
    assert(items.push(ItemView::Switch(Flag::Shell)).drop_last() =~= items);
    assert(items.push(ItemView::Value(Flag::Socket, s)).drop_last() =~= items);
    assert(items.push(ItemView::Value(Flag::Env, s)).drop_last() =~= items);
}

/// The program's words are taken as they are, all and in order, whether `--` stands in front
/// of them or the first is no flag; the flags in front mean what they mean alone.
pub proof fn client_takes_all_program_words(flags: Seq<Seq<char>>, program: Seq<Seq<char>>)
    requires
        flags_only(Tool::Client, flags),
    ensures
        client_options(flags) is Some,
        client_options(flags + (seq!["--"@] + program)) == Some(
            (ClientOptionsView { args: program, ..client_options(flags).unwrap() }),
        ),
        program.len() > 0 && word_kind(Tool::Client, program[0]) == Word::Program
            ==> client_options(flags + program) == Some(
            (ClientOptionsView { args: program, ..client_options(flags).unwrap() }),
        ),
{
    one_more(Tool::Client, flags, "--"@, "--"@);
    program_words_are_kept(Tool::Client, flags, program);
}

/// Without words a server has no socket, no owner and no program, lets the client choose
/// its arguments and variables, and makes its socket with mode 0770.
pub proof fn servers_start_from_defaults(tool: Tool, ids: Seq<Option<(Option<u32>, Option<u32>)>>)
    ensures
        server_options(tool, Seq::empty(), ids) == Ok::<ServerOptionsView, OptionsErrorView>(
            (ServerOptionsView {
                socket: None,
                env: Seq::empty(),
                uid: None,
                gid: None,
                mode: 0o770,
                no_client_argv: false,
                no_client_env: false,
                program: Seq::empty(),
            }),
        ),
{
}

/// What a server makes of one more flag, given what it made of those before.
proof fn server_takes_one_more(
    tool: Tool,
    flags: Seq<Seq<char>>,
    w: Seq<char>,
    value: Seq<char>,
    ids: Seq<Option<(Option<u32>, Option<u32>)>>,
    owner: Option<(Option<u32>, Option<u32>)>,
)
    requires
        flags_only(tool, flags),
        ids.len() == cut_words(tool, flags).0.len(),
    ensures
        server_options(tool, flags, ids) matches Ok(o) ==> o.program.len() == 0,
        word_kind(tool, w) matches Word::Switch(f) ==> server_options(
            tool,
            flags + seq![w],
            ids.push(owner),
        ) == match server_options(tool, flags, ids) {
            Ok(o) => server_apply(o, ItemView::Switch(f), owner),
            Err(e) => Err(e),
        },
        word_kind(tool, w) matches Word::Valued(f) ==> server_options(
            tool,
            flags + seq![w, value],
            ids.push(owner),
        ) == match server_options(tool, flags, ids) {
            Ok(o) => server_apply(o, ItemView::Value(f, value), owner),
            Err(e) => Err(e),
        },
{
    one_more(tool, flags, w, value);
    let items = cut_words(tool, flags).0;
    server_fold_prefix(items, ids, ids.push(owner));
    if let Word::Switch(f) = word_kind(tool, w) {
        assert(items.push(ItemView::Switch(f)).drop_last() =~= items);
    }
    if let Word::Valued(f) = word_kind(tool, w) {
        assert(items.push(ItemView::Value(f, value)).drop_last() =~= items);
    }
    server_fold_has_no_program(items, ids);
    if let Ok(o) = server_fold(items, ids) {
        assert(o.program =~= Seq::empty());
    }
}

/// Flags name no program.
proof fn server_fold_has_no_program(
    items: Seq<ItemView>,
    ids: Seq<Option<(Option<u32>, Option<u32>)>>,
)
    ensures
        server_fold(items, ids) matches Ok(o) ==> o.program.len() == 0,
    decreases items.len(),
{
    if items.len() > 0 {
        server_fold_has_no_program(items.drop_last(), ids);
    }
}

/// Each flag of a server changes one thing and leaves the rest: `-S` the socket, of which
/// the last counts; `-m` the mode, which must be an octal number up to 07777; `-o` both owner
/// and group, as the names and numbers were resolved; for the daemon `-e` adds a variable
/// behind those that are there, `-f` keeps the client's arguments out and `-E` its
/// variables.
pub proof fn server_flags_do_one_thing(
    tool: Tool,
    flags: Seq<Seq<char>>,
    s: Seq<char>,
    ids: Seq<Option<(Option<u32>, Option<u32>)>>,
    uid: Option<u32>,
    gid: Option<u32>,
)
    requires
        flags_only(tool, flags),
        tool == Tool::Daemon || tool == Tool::Pwauth,
        ids.len() == cut_words(tool, flags).0.len(),
        server_options(tool, flags, ids) is Ok,
    ensures
        ({
            let o = server_options(tool, flags, ids)->Ok_0;
            let none = ids.push(None);
            &&& server_options(tool, flags + seq!["-S"@, s], none) == Ok::<_, OptionsErrorView>(
                (ServerOptionsView { socket: Some(s), ..o }),
            )
            &&& match text::number_value(s, 8) {
                Some(mode) if mode <= 0o7777 => server_options(
                    tool,
                    flags + seq!["-m"@, s],
                    none,
                ) == Ok::<_, OptionsErrorView>((ServerOptionsView { mode, ..o })),
                _ => server_options(tool, flags + seq!["-m"@, s], none) == Err::<
                    ServerOptionsView,
                    _,
                >(OptionsErrorView::InvalidMode(s)),
            }
            &&& server_options(tool, flags + seq!["-o"@, s], ids.push(Some((uid, gid)))) == Ok::<
                _,
                OptionsErrorView,
            >((ServerOptionsView { uid, gid, ..o }))
            &&& server_options(tool, flags + seq!["-o"@, s], none) == Err::<ServerOptionsView, _>(
                OptionsErrorView::InvalidOwner(s),
            )
            &&& tool == Tool::Daemon ==> server_options(tool, flags + seq!["-e"@, s], none) == Ok::<
                _,
                OptionsErrorView,
            >((ServerOptionsView { env: o.env.push(s), ..o }))
            &&& tool == Tool::Daemon ==> server_options(tool, flags + seq!["-f"@], none) == Ok::<
                _,
                OptionsErrorView,
            >((ServerOptionsView { no_client_argv: true, ..o }))
            &&& tool == Tool::Daemon ==> server_options(tool, flags + seq!["-E"@], none) == Ok::<
                _,
                OptionsErrorView,
            >((ServerOptionsView { no_client_env: true, ..o }))
        }),
{
    flags_are_known(tool, s);
    server_takes_one_more(tool, flags, "-S"@, s, ids, None);
    server_takes_one_more(tool, flags, "-m"@, s, ids, None);
    server_takes_one_more(tool, flags, "-o"@, s, ids, Some((uid, gid)));
    server_takes_one_more(tool, flags, "-o"@, s, ids, None);
    if tool == Tool::Daemon {
        server_takes_one_more(tool, flags, "-e"@, s, ids, None);
        server_takes_one_more(tool, flags, "-f"@, s, ids, None);
        server_takes_one_more(tool, flags, "-E"@, s, ids, None);
    }
}

/// A server takes all of the program's words, in order, whether `--` stands in front of them
/// or the first is no flag; the flags in front mean what they mean alone, and a wrong one
/// among them is reported first.
pub proof fn server_takes_all_program_words(
    tool: Tool,
    flags: Seq<Seq<char>>,
    program: Seq<Seq<char>>,
    ids: Seq<Option<(Option<u32>, Option<u32>)>>,
)
    requires
        flags_only(tool, flags),
    ensures
        ({
            let expected = match server_options(tool, flags, ids) {
                Ok(o) => Ok((ServerOptionsView { program, ..o })),
                Err(e) => Err(e),
            };
            &&& server_options(tool, flags + (seq!["--"@] + program), ids) == expected
            &&& program.len() > 0 && word_kind(tool, program[0]) == Word::Program
                ==> server_options(tool, flags + program, ids) == expected
        }),
{
    one_more(tool, flags, "--"@, "--"@);
    program_words_are_kept(tool, flags, program);
}

/// A server that is called for help, or with a flag that lacks its value, answers with its
/// usage, unless a flag in front was wrong.
pub proof fn servers_show_their_usage(
    tool: Tool,
    flags: Seq<Seq<char>>,
    w: Seq<char>,
    ids: Seq<Option<(Option<u32>, Option<u32>)>>,
)
    requires
        flags_only(tool, flags),
        w == "-h"@ || w == "--help"@ || w == "-S"@ || (tool != Tool::Client && (w == "-o"@ || w
            == "-m"@)) || (tool == Tool::Daemon && w == "-e"@),
    ensures
        server_options(tool, flags + seq![w], ids) == match server_options(tool, flags, ids) {
            Ok(_) => Err::<ServerOptionsView, _>(OptionsErrorView::Usage),
            Err(e) => Err(e),
        },
{
    flags_are_known(tool, w);
    one_more(tool, flags, w, w);
    reveal_with_fuel(cut_words, 2);
    flags_come_off(tool, flags, seq![w]);
    assert(cut_words(tool, seq![w]).0 =~= Seq::empty());
    assert(cut_words(tool, flags + seq![w]).0 =~= cut_words(tool, flags).0);
}

/// A daemon with a socket listens on it, with the owner and the mode that were asked for, and
/// without one serves a single client. Its program and its variables are what it runs for
/// every client.
pub proof fn daemon_does_what_it_is_told(o: ServerOptionsView, socket: Seq<char>)
    ensures
        o.socket is None ==> o.daemon_mode() is OneShot,
        o.socket == Some(socket) ==> (o.daemon_mode() matches DaemonModeView::Listen {
            socket: at,
            uid,
            gid,
            mode,
        } && at == socket && uid == o.uid && gid == o.gid && mode == o.mode),
        o.daemon_config().fixed_args == o.program,
        o.daemon_config().fixed_env == o.env,
        o.daemon_config().no_client_argv == o.no_client_argv,
        o.daemon_config().no_client_env == o.no_client_env,
{
}

/// The front-end needs a socket, and listens there with the owner and the mode that were
/// asked for; it hands over to the command that it was given, or to `capsudod`.
pub proof fn front_end_does_what_it_is_told(o: ServerOptionsView, socket: Seq<char>)
    ensures
        o.socket is None ==> o.pwauth() == Err::<PwauthOptionsView, _>(OptionsErrorView::Usage),
        o.socket == Some(socket) ==> (o.pwauth() matches Ok(p) && p.socket == socket && p.uid
            == o.uid && p.gid == o.gid && p.mode == o.mode && p.capsudod_cmd == if o.program.len()
            == 0 {
            seq!["capsudod"@]
        } else {
            o.program
        }),
        pwauth_of(Ok(o)) == o.pwauth(),
{
}

/// What a tool says of wrong options.
pub proof fn wrong_options_are_named(spec: Seq<char>, tool: Tool)
    ensures
        OptionsErrorView::Usage.text(Tool::Client)
            == "usage: capsudo [-S socket] [-i|-n] [-s] [-e key=value]... [program [args...]]\ndefault socket: /run/capsudo/default"@,
        OptionsErrorView::Usage.text(Tool::Daemon)
            == "usage: capsudod -S socket [-fE] [-o user[:group]] [-m mode] [-e key=value]... [program [args...]]"@,
        OptionsErrorView::Usage.text(Tool::Pwauth)
            == "usage: capsudod-pwauth -S socket [-o user[:group]] [-m mode] -- capsudod [args...]"@,
        OptionsErrorView::InvalidOwner(spec).text(Tool::Daemon) == "capsudod"@
            + ": invalid owner spec: "@ + spec,
        OptionsErrorView::InvalidOwner(spec).text(Tool::Pwauth) == "capsudod-pwauth"@
            + ": invalid owner spec: "@ + spec,
        OptionsErrorView::InvalidMode(spec).text(Tool::Daemon) == "capsudod"@
            + ": invalid mode: "@ + spec,
        OptionsErrorView::InvalidMode(spec).text(Tool::Pwauth) == "capsudod-pwauth"@
            + ": invalid mode: "@ + spec,
        tool_name(Tool::Client) == "capsudo"@,
{
}

/// A shell is asked for exactly by its flag.
pub proof fn shell_only_where_asked(items: Seq<ItemView>)
    ensures
        client_fold(items).shell <==> exists|i: int|
            0 <= i < items.len() && #[trigger] items[i] == ItemView::Switch(Flag::Shell),
    decreases items.len(),
{
    if items.len() > 0 {
        let before = items.drop_last();
        shell_only_where_asked(before);
        if client_fold(before).shell {
            let i = choose|i: int|
                0 <= i < before.len() && #[trigger] before[i] == ItemView::Switch(Flag::Shell);
            assert(items[i] == before[i]);
        }
        assert(items.last() == items[items.len() - 1]);
        if items.last() != ItemView::Switch(Flag::Shell) && exists|i: int|
            0 <= i < items.len() && #[trigger] items[i] == ItemView::Switch(Flag::Shell) {
            let i = choose|i: int|
                0 <= i < items.len() && #[trigger] items[i] == ItemView::Switch(Flag::Shell);
            assert(before[i] == items[i]);
        }
    }
}

/// Options and what is wrong with them are shown as they are.
pub proof fn options_are_shown(
    o: ClientOptions,
    s: ServerOptions,
    p: PwauthOptions,
    e: OptionsError,
    spec: String,
    uid: Option<u32>,
    gid: Option<u32>,
    mode: u32,
)
    ensures
        o@.socket == o.socket@,
        o@.session == o.session,
        o@.shell == o.shell,
        o@.env == text::texts(o.env@),
        o@.args == text::texts(o.args@),
        s.socket is None <==> s@.socket is None,
        s.socket matches Some(socket) ==> s@.socket == Some(socket@),
        s@.env == text::texts(s.env@),
        s@.uid == s.uid,
        s@.gid == s.gid,
        s@.mode == s.mode,
        s@.no_client_argv == s.no_client_argv,
        s@.no_client_env == s.no_client_env,
        s@.program == text::texts(s.program@),
        p@.socket == p.socket@,
        p@.uid == p.uid,
        p@.gid == p.gid,
        p@.mode == p.mode,
        p@.capsudod_cmd == text::texts(p.capsudod_cmd@),
        OptionsError::Usage@ == OptionsErrorView::Usage,
        OptionsError::InvalidOwner(spec)@ == OptionsErrorView::InvalidOwner(spec@),
        OptionsError::InvalidMode(spec)@ == OptionsErrorView::InvalidMode(spec@),
        (DaemonMode::Listen { socket: spec, uid, gid, mode })@ == (DaemonModeView::Listen {
            socket: spec@,
            uid,
            gid,
            mode,
        }),
        DaemonMode::OneShot@ == DaemonModeView::OneShot,
        server_result(Ok(s)) == Ok::<_, OptionsErrorView>(s@),
        server_result(Err(e)) == Err::<ServerOptionsView, _>(e@),
        pwauth_result(Ok(p)) == Ok::<_, OptionsErrorView>(p@),
        pwauth_result(Err(e)) == Err::<PwauthOptionsView, _>(e@),
        pwauth_of(Err(e@)) == Err::<PwauthOptionsView, _>(e@),
{
}

/// A call for help wins over everything behind it: the client then has no options, and a
/// server answers with its usage unless a flag in front was wrong.
pub proof fn help_wins_over_what_follows(
    tool: Tool,
    flags: Seq<Seq<char>>,
    w: Seq<char>,
    rest: Seq<Seq<char>>,
    ids: Seq<Option<(Option<u32>, Option<u32>)>>,
)
    requires
        flags_only(tool, flags),
        w == "-h"@ || w == "--help"@,
    ensures
        tool == Tool::Client ==> client_options(flags + (seq![w] + rest)) is None,
        server_options(tool, flags + (seq![w] + rest), ids) == match server_options(
            tool,
            flags,
            ids,
        ) {
            Ok(_) => Err::<ServerOptionsView, _>(OptionsErrorView::Usage),
            Err(e) => Err(e),
        },
{
    flags_are_known(tool, w);
    one_more(tool, flags, w, w);
    let asked = seq![w] + rest;
    assert(asked[0] == w);
    flags_come_off(tool, flags, asked);
    assert(cut_words(tool, flags + asked).0 =~= cut_words(tool, flags).0);
}

/// A wrong owner or mode is what a server reports, whatever comes behind it.
pub proof fn wrong_flags_are_reported_first(
    tool: Tool,
    flags: Seq<Seq<char>>,
    rest: Seq<Seq<char>>,
    ids: Seq<Option<(Option<u32>, Option<u32>)>>,
    more: Seq<Option<(Option<u32>, Option<u32>)>>,
    e: OptionsErrorView,
)
    requires
        flags_only(tool, flags),
        ids.len() == cut_words(tool, flags).0.len(),
        server_options(tool, flags, ids) == Err::<ServerOptionsView, _>(e),
    ensures
        server_options(tool, flags + rest, ids + more) == Err::<ServerOptionsView, _>(e),
{
    one_more(tool, flags, "--"@, "--"@);
    flags_come_off(tool, flags, rest);
    let items = cut_words(tool, flags).0;
    let all = items + cut_words(tool, rest).0;
    assert(all.take(items.len() as int) =~= items);
    server_fold_prefix(items, ids, ids + more);
    server_fold_error(all, ids + more, items.len() as int);
}

/// A command line that gives the client no options gives its usage.
pub proof fn client_shows_its_usage(words: Vec<String>, parsed: Result<ClientOptions, OptionsError>)
    requires
        call_ensures(parse_client_options, (&words,), parsed),
    ensures
        client_options(text::texts(words@)) is None ==> (parsed matches Err(e) && e@
            == OptionsErrorView::Usage),
        client_options(text::texts(words@)) matches Some(o) ==> (parsed matches Ok(got) && got@
            == o),
{
}

} // verus!

//! The command-dispatch state machine.
//!
//! One submitted line at a time is classified — empty, one of the fixed
//! built-ins, or an external program — by [`parse`], a single verified parse
//! step into the closed [`Command`] type. [`dispatch`] then applies the
//! command to the active session's state and reports, as an [`Action`], the
//! one thing the unverified shell around the library still has to perform
//! (print, probe a directory, spawn a process, talk to the network).
//! Built-in names always win over an external program of the same name: a
//! deliberate tie-break, fixed by the order of the parse step.

use vstd::prelude::*;
use crate::assistant::{
    AssistantContext,
    AssistantView,
    ModelId,
    credential_line,
    spec_credential_line,
};
use crate::environment::spec_resolve;
use crate::session::{Session, SessionView, random_tip, spec_tips};
use vstd::multiset::Multiset;
use crate::text::{
    lemma_lex_le_total,
    lemma_lex_le_trans,
    lex_le,
    str_le,
    lemma_blank_iff_no_tokens,
    spec_starts_with,
    spec_tokens,
    spec_trim,
    starts_with,
    str_eq,
    tokenize,
};

verus! {

/// One parsed input line.
pub enum Command {
    /// Nothing but whitespace.
    Empty,
    /// `exit` or `quit`: leave this session's prompt loop.
    Exit,
    /// `clear`: wipe the screen.
    Clear,
    /// `tip`: show a random hint.
    Tip,
    /// `history`: replay this session's recorded lines.
    History,
    /// `pwd`: print the current directory.
    Pwd,
    /// `ls [-a] [path]`, flag and path in either order; with several path
    /// arguments the last one wins.
    Ls { show_hidden: bool, path: Option<String> },
    /// `cd [path]`; without an argument the home alias `~` is assumed.
    Cd { path: String },
    /// `cat <file>`; the missing argument is a usage error, not a crash.
    Cat { path: Option<String> },
    /// `voia <question...>`: ask the assistant; the question is the
    /// remaining tokens joined by single spaces.
    Ask { question: Option<String> },
    /// `voia-clear`: forget the assistant conversation.
    AskClear,
    /// `voia-setkey <key>`: remember and persist a credential.
    SetKey { key: Option<String> },
    /// `voia-model [name]`: select a model, or show the menu.
    SetModel { name: Option<String> },
    /// A `partermai`-prefixed meta command; only `help` is recognized.
    Meta { help: bool },
    /// Anything else: spawn the first token as a program.
    External { program: String, args: Vec<String> },
}

/// The mathematical value of a [`Command`].
pub enum CommandView {
    Empty,
    Exit,
    Clear,
    Tip,
    History,
    Pwd,
    Ls { show_hidden: bool, path: Option<Seq<char>> },
    Cd { path: Seq<char> },
    Cat { path: Option<Seq<char>> },
    Ask { question: Option<Seq<char>> },
    AskClear,
    SetKey { key: Option<Seq<char>> },
    SetModel { name: Option<Seq<char>> },
    Meta { help: bool },
    External { program: Seq<char>, args: Seq<Seq<char>> },
}

impl View for Command {
    type V = CommandView;

    open spec fn view(&self) -> CommandView {
        match self {
            Command::Empty => CommandView::Empty,
            Command::Exit => CommandView::Exit,
            Command::Clear => CommandView::Clear,
            Command::Tip => CommandView::Tip,
            Command::History => CommandView::History,
            Command::Pwd => CommandView::Pwd,
            Command::Ls { show_hidden, path } => CommandView::Ls {
                show_hidden: *show_hidden,
                path: match path {
                    Some(p) => Some(p@),
                    None => None,
                },
            },
            Command::Cd { path } => CommandView::Cd { path: path@ },
            Command::Cat { path } => CommandView::Cat {
                path: match path {
                    Some(p) => Some(p@),
                    None => None,
                },
            },
            Command::Ask { question } => CommandView::Ask {
                question: match question {
                    Some(q) => Some(q@),
                    None => None,
                },
            },
            Command::AskClear => CommandView::AskClear,
            Command::SetKey { key } => CommandView::SetKey {
                key: match key {
                    Some(k) => Some(k@),
                    None => None,
                },
            },
            Command::SetModel { name } => CommandView::SetModel {
                name: match name {
                    Some(n) => Some(n@),
                    None => None,
                },
            },
            Command::Meta { help } => CommandView::Meta { help: *help },
            Command::External { program, args } => CommandView::External {
                program: program@,
                args: args@.map_values(|a: String| a@),
            },
        }
    }
}

/// A token that looks like a flag rather than a path.
pub open spec fn is_dash_arg(a: Seq<char>) -> bool {
    a.len() > 0 && a[0] == '-'
}

/// How `ls` reads its arguments, in order: every `-a` turns hidden entries
/// on, the last non-flag argument is the path, and other flags are ignored.
pub open spec fn spec_ls_opts(args: Seq<Seq<char>>) -> (bool, Option<Seq<char>>)
    decreases args.len(),
{
    if args.len() == 0 {
        (false, None)
    } else {
        let (hidden, path) = spec_ls_opts(args.drop_last());
        let a = args.last();
        if a == "-a"@ {
            (true, path)
        } else if !is_dash_arg(a) {
            (hidden, Some(a))
        } else {
            (hidden, path)
        }
    }
}

/// The given strings joined with single spaces.
pub open spec fn spec_join_spaces(args: Seq<Seq<char>>) -> Seq<char>
    decreases args.len(),
{
    if args.len() == 0 {
        Seq::empty()
    } else if args.len() == 1 {
        args[0]
    } else {
        spec_join_spaces(args.drop_last()) + " "@ + args.last()
    }
}

/// What a line parses to: no tokens is the empty command; otherwise the
/// first token is matched, case-sensitively, against the built-in names,
/// and a line whose first token is none of them spawns an external program.
pub open spec fn spec_parse(line: Seq<char>) -> CommandView {
    let toks = spec_tokens(line);
    if toks.len() == 0 {
        CommandView::Empty
    } else {
        let cmd = toks[0];
        let args = toks.drop_first();
        if cmd == "exit"@ || cmd == "quit"@ {
            CommandView::Exit
        } else if cmd == "clear"@ {
            CommandView::Clear
        } else if cmd == "tip"@ {
            CommandView::Tip
        } else if cmd == "history"@ {
            CommandView::History
        } else if cmd == "pwd"@ {
            CommandView::Pwd
        } else if cmd == "ls"@ {
            CommandView::Ls {
                show_hidden: spec_ls_opts(args).0,
                path: spec_ls_opts(args).1,
            }
        } else if cmd == "cd"@ {
            CommandView::Cd {
                path: if args.len() >= 1 {
                    args[0]
                } else {
                    "~"@
                },
            }
        } else if cmd == "cat"@ {
            CommandView::Cat {
                path: if args.len() >= 1 {
                    Some(args[0])
                } else {
                    None
                },
            }
        } else if cmd == "voia"@ {
            CommandView::Ask {
                question: if args.len() >= 1 {
                    Some(spec_join_spaces(args))
                } else {
                    None
                },
            }
        } else if cmd == "voia-clear"@ {
            CommandView::AskClear
        } else if cmd == "voia-setkey"@ {
            CommandView::SetKey {
                key: if args.len() >= 1 {
                    Some(args[0])
                } else {
                    None
                },
            }
        } else if cmd == "voia-model"@ {
            CommandView::SetModel {
                name: if args.len() >= 1 {
                    Some(args[0])
                } else {
                    None
                },
            }
        } else if spec_starts_with(cmd, "partermai"@) {
            CommandView::Meta { help: args.len() >= 1 && args[0] == "help"@ }
        } else {
            CommandView::External { program: cmd, args }
        }
    }
}

/// Join `parts[from..]` with single spaces.
fn join_spaces(parts: &Vec<String>, from: usize) -> (r: String)
    requires
        from <= parts@.len(),
    ensures
        r@ == spec_join_spaces(parts@.map_values(|a: String| a@).skip(from as int)),
{
    let ghost tail = parts@.map_values(|a: String| a@).skip(from as int);
    let n = parts.len();
    let mut out = String::new();
    let mut i: usize = from;
    proof {
        assert(tail.take(0) =~= Seq::<Seq<char>>::empty());
    }
    while i < n
        invariant
            from <= i <= n,
            n == parts@.len(),
            tail == parts@.map_values(|a: String| a@).skip(from as int),
            out@ == spec_join_spaces(tail.take(i - from)),
        decreases n - i,
    {
        if i > from {
            out.append(" ");
        }
        out.append(parts[i].as_str());
        proof {
            let w = tail.take(i - from + 1);
            assert(w.last() == tail[i - from] && tail[i - from] == parts@[i as int]@);
            if i == from {
                assert(w.len() == 1);
                assert(w[0] == tail[0]);
            } else {
                assert(w.drop_last() =~= tail.take(i - from));
            }
        }
        i += 1;
    }
    proof {
        assert(tail.take(n - from) =~= tail);
    }
    out
}

/// Read `ls` arguments left to right: `-a` shows hidden entries, the last
/// non-flag argument is the path.
fn ls_opts(parts: &Vec<String>) -> (r: (bool, Option<String>))
    requires
        parts@.len() >= 1,
    ensures
        ({
            let spec = spec_ls_opts(parts@.map_values(|a: String| a@).drop_first());
            &&& r.0 == spec.0
            &&& match r.1 {
                Some(p) => spec.1 == Some(p@),
                None => spec.1 is None,
            }
        }),
{
    let ghost args = parts@.map_values(|a: String| a@).drop_first();
    let n = parts.len();
    let mut show_hidden = false;
    let mut path: Option<String> = None;
    let mut i: usize = 1;
    proof {
        assert(args.take(0) =~= Seq::<Seq<char>>::empty());
    }
    while i < n
        invariant
            1 <= i <= n,
            n == parts@.len(),
            args == parts@.map_values(|a: String| a@).drop_first(),
            show_hidden == spec_ls_opts(args.take(i - 1)).0,
            match path {
                Some(p) => spec_ls_opts(args.take(i - 1)).1 == Some(p@),
                None => spec_ls_opts(args.take(i - 1)).1 is None,
            },
        decreases n - i,
    {
        let a = &parts[i];
        proof {
            let w = args.take(i as int);
            assert(w.last() == args[i - 1] && args[i - 1] == parts@[i as int]@);
            assert(w.drop_last() =~= args.take(i - 1));
        }
        if str_eq(a.as_str(), "-a") {
            show_hidden = true;
        } else {
            let dash = a.as_str().unicode_len() > 0 && a.as_str().get_char(0) == '-';
            if !dash {
                path = Some(a.clone());
            }
        }
        i += 1;
    }
    proof {
        assert(args.take(n - 1) =~= args);
    }
    (show_hidden, path)
}

/// Classify one submitted line. This is the single parse step the
/// dispatcher runs on: built-ins are matched here, in a fixed order, before
/// anything is considered an external program.
pub fn parse(line: &str) -> (r: Command)
    ensures
        r@ == spec_parse(line@),
{
    let parts = tokenize(line);
    let ghost toks = spec_tokens(line@);
    if parts.len() == 0 {
        return Command::Empty;
    }
    proof {
        assert(parts@.map_values(|t: String| t@)[0] == parts@[0]@);
    }
    let ghost args = toks.drop_first();
    let cmd = parts[0].as_str();
    if str_eq(cmd, "exit") || str_eq(cmd, "quit") {
        Command::Exit
    } else if str_eq(cmd, "clear") {
        Command::Clear
    } else if str_eq(cmd, "tip") {
        Command::Tip
    } else if str_eq(cmd, "history") {
        Command::History
    } else if str_eq(cmd, "pwd") {
        Command::Pwd
    } else if str_eq(cmd, "ls") {
        let (show_hidden, path) = ls_opts(&parts);
        proof {
            assert(parts@.map_values(|t: String| t@).drop_first() =~= args);
        }
        Command::Ls { show_hidden, path }
    } else if str_eq(cmd, "cd") {
        if parts.len() >= 2 {
            proof {
                assert(parts@.map_values(|t: String| t@)[1] == parts@[1]@);
                assert(args[0] == toks[1]);
            }
            Command::Cd { path: parts[1].clone() }
        } else {
            Command::Cd { path: "~".to_owned() }
        }
    } else if str_eq(cmd, "cat") {
        if parts.len() >= 2 {
            proof {
                assert(parts@.map_values(|t: String| t@)[1] == parts@[1]@);
                assert(args[0] == toks[1]);
            }
            Command::Cat { path: Some(parts[1].clone()) }
        } else {
            Command::Cat { path: None }
        }
    } else if str_eq(cmd, "voia") {
        if parts.len() >= 2 {
            let q = join_spaces(&parts, 1);
            proof {
                assert(parts@.map_values(|t: String| t@).skip(1) =~= args);
            }
            Command::Ask { question: Some(q) }
        } else {
            Command::Ask { question: None }
        }
    } else if str_eq(cmd, "voia-clear") {
        Command::AskClear
    } else if str_eq(cmd, "voia-setkey") {
        if parts.len() >= 2 {
            proof {
                assert(parts@.map_values(|t: String| t@)[1] == parts@[1]@);
                assert(args[0] == toks[1]);
            }
            Command::SetKey { key: Some(parts[1].clone()) }
        } else {
            Command::SetKey { key: None }
        }
    } else if str_eq(cmd, "voia-model") {
        if parts.len() >= 2 {
            proof {
                assert(parts@.map_values(|t: String| t@)[1] == parts@[1]@);
                assert(args[0] == toks[1]);
            }
            Command::SetModel { name: Some(parts[1].clone()) }
        } else {
            Command::SetModel { name: None }
        }
    } else if starts_with(cmd, "partermai") {
        if parts.len() >= 2 {
            proof {
                assert(parts@.map_values(|t: String| t@)[1] == parts@[1]@);
                assert(args[0] == toks[1]);
            }
            let help = str_eq(parts[1].as_str(), "help");
            Command::Meta { help }
        } else {
            Command::Meta { help: false }
        }
    } else {
        let mut args_vec: Vec<String> = Vec::new();
        let n = parts.len();
        let mut i: usize = 1;
        proof {
            assert(args_vec@.map_values(|a: String| a@) =~= args.take(0));
        }
        while i < n
            invariant
                1 <= i <= n,
                n == parts@.len(),
                toks == parts@.map_values(|t: String| t@),
                args == toks.drop_first(),
                args_vec@.map_values(|a: String| a@) == args.take(i - 1),
            decreases n - i,
        {
            let ghost before = args_vec@.map_values(|a: String| a@);
            args_vec.push(parts[i].clone());
            proof {
                assert(args_vec@.map_values(|a: String| a@) =~= before.push(parts@[i as int]@));
                assert(args.take(i as int) =~= before.push(args[i - 1]));
                assert(args[i - 1] == toks[i as int]);
            }
            i += 1;
        }
        proof {
            assert(args.take(n - 1) =~= args);
        }
        let program = parts[0].clone();
        Command::External { program, args: args_vec }
    }
}

/// Which built-in was used without its required argument.
#[derive(Clone, Copy, Debug, PartialEq, Eq, Structural)]
pub enum UsageHint {
    /// `cat` needs exactly one path argument.
    Cat,
    /// `voia` needs a question.
    Ask,
    /// `voia-setkey` needs the key.
    SetKey,
}

/// What the unverified shell still has to perform after a dispatch step.
/// Everything that is session state has already been updated by the time an
/// action is returned.
pub enum Action {
    /// A blank line: nothing happened, nothing to do.
    Idle,
    /// Leave this session's prompt loop (the process keeps running).
    ExitSession,
    /// Wipe the screen.
    ClearScreen,
    /// Print this hint.
    ShowTip { tip: String },
    /// Replay the session's history, oldest first.
    ShowHistory,
    /// Read the directory `target` and print its entries (see
    /// [`select_entries`] for the verified filtering and ordering).
    ListDir { target: String, show_hidden: bool },
    /// Print the current directory.
    PrintWorkingDir { dir: String },
    /// Probe where `path` resolves and, if it is a directory, commit the
    /// change through `Environment::change_directory`.
    ChangeDir { path: String },
    /// Print the file at `target`.
    ReadFile { target: String },
    /// Run the assistant exchange for this question (activate the assistant
    /// if need be, then `begin_ask`, the network call, `record_reply`).
    AskAssistant { question: String },
    /// Write `contents` to the configuration store; the in-memory
    /// credential is already updated.
    PersistCredential { contents: String },
    /// Report the now-selected model.
    ShowModel { model: String },
    /// Show the model menu and, when an assistant exists, its current model.
    ShowModelMenu { current: Option<String> },
    /// The assistant transcript was cleared.
    ClearedTranscript,
    /// The assistant has not been started in this session yet.
    AssistantInactive,
    /// A built-in was called without its required argument.
    Usage { hint: UsageHint },
    /// Print the help text.
    ShowHelp,
    /// An unrecognized meta command.
    UnknownMeta,
    /// Spawn `program` with `args` in `current_dir` and wait for it.
    RunExternal { program: String, args: Vec<String>, current_dir: String },
}

/// The dispatch relation: how one submitted line takes a session from `s`
/// to `s2` with the follow-up action `a`.
///
/// A blank line changes nothing; every other line is recorded in the
/// history exactly once, verbatim, whatever its command does, and the
/// command's own effect touches at most the assistant state — directory
/// changes and everything involving the outside world are handed back as
/// the action.
pub open spec fn spec_dispatch(s: SessionView, line: Seq<char>, s2: SessionView, a: Action) -> bool {
    let c = spec_parse(line);
    if c is Empty {
        s2 == s && a is Idle
    } else {
        &&& s2.name == s.name
        &&& s2.env == s.env
        &&& s2.history == s.history.push(line)
        &&& match c {
            CommandView::Empty => false,
            CommandView::Exit => s2.assistant == s.assistant && a is ExitSession,
            CommandView::Clear => s2.assistant == s.assistant && a is ClearScreen,
            CommandView::Tip => s2.assistant == s.assistant && (a matches Action::ShowTip { tip }
                && spec_tips().contains(tip@)),
            CommandView::History => s2.assistant == s.assistant && a is ShowHistory,
            CommandView::Pwd => s2.assistant == s.assistant && (a matches Action::PrintWorkingDir {
                dir,
            } && dir@ == s.env.current_dir),
            CommandView::Ls { show_hidden, path } => s2.assistant == s.assistant && (a matches
                Action::ListDir { target, show_hidden: sh } && sh == show_hidden && target@
                == match path {
                    Some(p) => spec_resolve(s.env, p),
                    None => s.env.current_dir,
                }),
            CommandView::Cd { path } => s2.assistant == s.assistant && (a matches
                Action::ChangeDir { path: p } && p@ == path),
            CommandView::Cat { path } => s2.assistant == s.assistant && match path {
                Some(pp) => (a matches Action::ReadFile { target } && target@ == spec_resolve(
                    s.env,
                    pp,
                )),
                None => a == (Action::Usage { hint: UsageHint::Cat }),
            },
            CommandView::Ask { question } => s2.assistant == s.assistant && match question {
                Some(q) => (a matches Action::AskAssistant { question: q2 } && q2@ == q),
                None => a == (Action::Usage { hint: UsageHint::Ask }),
            },
            CommandView::AskClear => match s.assistant {
                Some(av) => s2.assistant == Some(
                    AssistantView { credential: av.credential, model: av.model, transcript: Seq::empty() },
                ) && a is ClearedTranscript,
                None => s2.assistant is None && a is AssistantInactive,
            },
            CommandView::SetKey { key } => match key {
                Some(k) => (match s.assistant {
                    Some(av) => s2.assistant == Some(
                        AssistantView {
                            credential: Some(k),
                            model: av.model,
                            transcript: av.transcript,
                        },
                    ),
                    None => s2.assistant == Some(
                        AssistantView {
                            credential: Some(k),
                            model: ModelId::Gpt35Turbo,
                            transcript: Seq::empty(),
                        },
                    ),
                }) && (a matches Action::PersistCredential { contents } && contents@
                    == spec_credential_line(k)),
                None => s2.assistant == s.assistant && a == (Action::Usage {
                    hint: UsageHint::SetKey,
                }),
            },
            CommandView::SetModel { name } => match name {
                Some(nm) => match s.assistant {
                    Some(av) => {
                        let m2 = match ModelId::spec_from_name(nm) {
                            Some(m) => m,
                            None => av.model,
                        };
                        s2.assistant == Some(
                            AssistantView {
                                credential: av.credential,
                                model: m2,
                                transcript: av.transcript,
                            },
                        ) && (a matches Action::ShowModel { model } && model@ == m2.spec_name())
                    },
                    None => s2.assistant is None && a is AssistantInactive,
                },
                None => s2.assistant == s.assistant && (a matches Action::ShowModelMenu { current }
                    && match s.assistant {
                        Some(av) => current matches Some(c2) && c2@ == av.model.spec_name(),
                        None => current is None,
                    }),
            },
            CommandView::Meta { help } => s2.assistant == s.assistant && if help {
                a is ShowHelp
            } else {
                a is UnknownMeta
            },
            CommandView::External { program, args } => s2.assistant == s.assistant && (a matches
                Action::RunExternal { program: p, args: ar, current_dir: d } && p@ == program
                && ar@.map_values(|x: String| x@) == args && d@ == s.env.current_dir),
        }
    }
}

/// Law: the history discipline. A line that trims to nothing is never
/// recorded (and the whole session is untouched); any other line is
/// appended to the history verbatim, exactly once, whatever its command
/// does or fails to do.
pub proof fn lemma_history_discipline(s: SessionView, line: Seq<char>, s2: SessionView, a: Action)
    requires
        spec_dispatch(s, line, s2, a),
    ensures
        spec_trim(line).len() == 0 ==> s2 == s && s2.history == s.history,
        spec_trim(line).len() > 0 ==> s2.history == s.history.push(line),
{
    lemma_blank_iff_no_tokens(line);
}

/// Apply one submitted line to the session: classify it, record it in the
/// history (unless blank), apply what only touches session state, and hand
/// everything else back as the [`Action`] to perform.
pub fn dispatch(session: &mut Session, line: &str) -> (a: Action)
    ensures
        spec_dispatch(old(session)@, line@, final(session)@, a),
{
    let cmd = parse(line);
    if let Command::Empty = cmd {
        return Action::Idle;
    }
    let ghost old_history = session@.history;
    session.history.push(line.to_owned());
    proof {
        assert(session@.history =~= old_history.push(line@));
    }
    match cmd {
        Command::Empty => unreached(),
        Command::Exit => Action::ExitSession,
        Command::Clear => Action::ClearScreen,
        Command::Tip => Action::ShowTip { tip: random_tip() },
        Command::History => Action::ShowHistory,
        Command::Pwd => Action::PrintWorkingDir { dir: session.env.current_dir_display() },
        Command::Ls { show_hidden, path } => {
            let target = match &path {
                Some(p) => session.env.resolve(p.as_str()),
                None => session.env.current_dir_display(),
            };
            Action::ListDir { target, show_hidden }
        },
        Command::Cd { path } => Action::ChangeDir { path },
        Command::Cat { path } => match path {
            Some(p) => Action::ReadFile { target: session.env.resolve(p.as_str()) },
            None => Action::Usage { hint: UsageHint::Cat },
        },
        Command::Ask { question } => match question {
            Some(q) => Action::AskAssistant { question: q },
            None => Action::Usage { hint: UsageHint::Ask },
        },
        Command::AskClear => match session.assistant.take() {
            Some(mut a) => {
                a.clear_history();
                session.assistant = Some(a);
                Action::ClearedTranscript
            },
            None => Action::AssistantInactive,
        },
        Command::SetKey { key } => match key {
            Some(k) => {
                match session.assistant.take() {
                    Some(mut a) => {
                        a.set_credential(k.as_str());
                        session.assistant = Some(a);
                    },
                    None => {
                        let mut a = AssistantContext::new(None);
                        a.set_credential(k.as_str());
                        session.assistant = Some(a);
                    },
                }
                Action::PersistCredential { contents: credential_line(k.as_str()) }
            },
            None => Action::Usage { hint: UsageHint::SetKey },
        },
        Command::SetModel { name } => match name {
            Some(nm) => match session.assistant.take() {
                Some(mut a) => {
                    a.set_model(nm.as_str());
                    let shown = a.model_name().to_owned();
                    session.assistant = Some(a);
                    Action::ShowModel { model: shown }
                },
                None => Action::AssistantInactive,
            },
            None => {
                let current = match &session.assistant {
                    Some(a) => Some(a.model_name().to_owned()),
                    None => None,
                };
                Action::ShowModelMenu { current }
            },
        },
        Command::Meta { help } => {
            if help {
                Action::ShowHelp
            } else {
                Action::UnknownMeta
            }
        },
        Command::External { program, args } => {
            let current_dir = session.env.current_dir_display();
            Action::RunExternal { program, args, current_dir }
        },
    }
}

/// One directory entry as the listing logic sees it: its name and whether
/// it is itself a directory (directories are displayed distinctly).
pub struct ListEntry {
    pub name: String,
    pub is_dir: bool,
}

/// The mathematical value of a [`ListEntry`].
pub struct ListEntryView {
    pub name: Seq<char>,
    pub is_dir: bool,
}

impl View for ListEntry {
    type V = ListEntryView;

    open spec fn view(&self) -> ListEntryView {
        ListEntryView { name: self.name@, is_dir: self.is_dir }
    }
}

/// A dotfile: an entry whose name starts with `.`.
pub open spec fn spec_hidden(name: Seq<char>) -> bool {
    name.len() > 0 && name[0] == '.'
}

/// Which entries a listing keeps, given the raw directory contents:
/// dotfiles are dropped unless hidden entries were asked for.
pub open spec fn spec_keeps(e: ListEntryView, show_hidden: bool) -> bool {
    show_hidden || !spec_hidden(e.name)
}

/// A listing in display order: sorted by name.
pub open spec fn sorted_entries(s: Seq<ListEntryView>) -> bool {
    forall|i: int, j: int| 0 <= i < j < s.len() ==> lex_le(s[i].name, s[j].name)
}

/// Prepare raw directory contents for display: drop dotfiles unless
/// `show_hidden`, and sort by name. The result holds exactly the kept
/// entries, multiplicities included, in lexicographic name order.
pub fn select_entries(entries: Vec<ListEntry>, show_hidden: bool) -> (r: Vec<ListEntry>)
    ensures
        r@.map_values(|e: ListEntry| e@).to_multiset() == entries@.map_values(
            |e: ListEntry| e@,
        ).filter(|e: ListEntryView| spec_keeps(e, show_hidden)).to_multiset(),
        sorted_entries(r@.map_values(|e: ListEntry| e@)),
{
    broadcast use vstd::seq_lib::group_to_multiset_ensures;

    let ghost pred = |e: ListEntryView| spec_keeps(e, show_hidden);
    let ghost all = entries@.map_values(|e: ListEntry| e@);
    let n = entries.len();
    let mut kept: Vec<ListEntry> = Vec::new();
    let mut i: usize = 0;
    proof {
        reveal(Seq::filter);
        assert(kept@.map_values(|e: ListEntry| e@) =~= all.take(0).filter(pred));
    }
    while i < n
        invariant
            0 <= i <= n,
            n == entries@.len(),
            all == entries@.map_values(|e: ListEntry| e@),
            pred == (|e: ListEntryView| spec_keeps(e, show_hidden)),
            kept@.map_values(|e: ListEntry| e@) == all.take(i as int).filter(pred),
        decreases n - i,
    {
        let e = &entries[i];
        let hidden = e.name.as_str().unicode_len() > 0 && e.name.as_str().get_char(0) == '.';
        let ghost before = kept@.map_values(|e2: ListEntry| e2@);
        if show_hidden || !hidden {
            kept.push(ListEntry { name: e.name.clone(), is_dir: e.is_dir });
            proof {
                assert(kept@.map_values(|e2: ListEntry| e2@) =~= before.push(all[i as int]));
            }
        }
        proof {
            reveal(Seq::filter);
            let w = all.take(i as int + 1);
            assert(w.drop_last() =~= all.take(i as int));
            assert(w.last() == all[i as int]);
        }
        i += 1;
    }
    proof {
        assert(all.take(n as int) =~= all);
    }
    sort_entries(kept)
}

/// Sort listing entries by name, keeping exactly the given entries.
fn sort_entries(v: Vec<ListEntry>) -> (r: Vec<ListEntry>)
    ensures
        r@.map_values(|e: ListEntry| e@).to_multiset() == v@.map_values(
            |e: ListEntry| e@,
        ).to_multiset(),
        sorted_entries(r@.map_values(|e: ListEntry| e@)),
{
    broadcast use vstd::seq_lib::group_to_multiset_ensures;

    let mut src = v;
    let mut out: Vec<ListEntry> = Vec::new();
    proof {
        assert(out@.map_values(|e: ListEntry| e@) =~= Seq::<ListEntryView>::empty());
    }
    while src.len() > 0
        invariant
            out@.map_values(|e: ListEntry| e@).to_multiset().add(
                src@.map_values(|e: ListEntry| e@).to_multiset(),
            ) == v@.map_values(|e: ListEntry| e@).to_multiset(),
            sorted_entries(out@.map_values(|e: ListEntry| e@)),
            forall|i: int, j: int|
                0 <= i < out@.len() && 0 <= j < src@.len() ==> #[trigger] lex_le(
                    out@[i]@.name,
                    src@[j]@.name,
                ),
        decreases src.len(),
    {
        let ghost src_view = src@.map_values(|e: ListEntry| e@);
        let ghost out_view = out@.map_values(|e: ListEntry| e@);
        let m = src.len();
        let mut mi: usize = 0;
        let mut j: usize = 1;
        proof {
            lemma_lex_le_total(src_view[0].name, src_view[0].name);
        }
        while j < m
            invariant
                m == src@.len(),
                src_view == src@.map_values(|e: ListEntry| e@),
                0 <= mi < m,
                j <= m,
                forall|k: int| 0 <= k < j ==> lex_le(src_view[mi as int].name, src_view[k].name),
            decreases m - j,
        {
            if str_le(src[j].name.as_str(), src[mi].name.as_str()) {
                proof {
                    assert forall|k: int| 0 <= k < j + 1 implies lex_le(
                        src_view[j as int].name,
                        src_view[k].name,
                    ) by {
                        if k < j {
                            lemma_lex_le_trans(
                                src_view[j as int].name,
                                src_view[mi as int].name,
                                src_view[k].name,
                            );
                        } else {
                            lemma_lex_le_total(src_view[j as int].name, src_view[j as int].name);
                        }
                    }
                }
                mi = j;
            } else {
                proof {
                    lemma_lex_le_total(src_view[j as int].name, src_view[mi as int].name);
                }
            }
            j += 1;
        }
        proof {
            lemma_lex_le_total(src_view[mi as int].name, src_view[mi as int].name);
        }
        let ghost old_out = out@;
        let ghost old_src = src@;
        let picked = src.remove(mi);
        let ghost pv = picked@;
        out.push(picked);
        proof {
            assert(src@.map_values(|e: ListEntry| e@) =~= src_view.remove(mi as int));
            assert(out@.map_values(|e: ListEntry| e@) =~= out_view.push(pv));
            assert(src_view[mi as int] == pv);
            let new_out = out_view.push(pv);
            let new_src = src_view.remove(mi as int);
            assert(new_out.to_multiset().add(new_src.to_multiset()) =~= out_view.to_multiset().add(
                src_view.to_multiset(),
            )) by {
                out_view.to_multiset_ensures();
                src_view.to_multiset_ensures();
                assert(new_out.to_multiset() =~= out_view.to_multiset().insert(pv));
                assert(new_src.to_multiset() =~= src_view.to_multiset().remove(pv));
                assert(src_view.to_multiset().count(pv) > 0);
            }
            assert forall|i: int, j2: int| 0 <= i < j2 < new_out.len() implies lex_le(
                new_out[i].name,
                new_out[j2].name,
            ) by {
                assert(new_out[i] == out_view[i] && out_view[i] == old_out[i]@);
                if j2 < new_out.len() - 1 {
                    assert(lex_le(out_view[i].name, out_view[j2].name));
                } else {
                    assert(lex_le(old_out[i]@.name, old_src[mi as int]@.name));
                }
            }
            assert forall|i: int, j2: int|
                0 <= i < out@.len() && 0 <= j2 < src@.len() implies #[trigger] lex_le(
                out@[i]@.name,
                src@[j2]@.name,
            ) by {
                let orig = if j2 < mi as int {
                    j2
                } else {
                    j2 + 1
                };
                assert(src@[j2] == old_src[orig]);
                assert(src@[j2]@ == src_view[orig]);
                if i < out@.len() - 1 {
                    assert(out@[i] == old_out[i]);
                    assert(lex_le(old_out[i]@.name, old_src[orig]@.name));
                } else {
                    assert(out@[i]@ == pv);
                    assert(lex_le(src_view[mi as int].name, src_view[orig].name));
                }
            }
        }
    }
    proof {
        assert(src@.map_values(|e: ListEntry| e@).to_multiset() =~= Multiset::<
            ListEntryView,
        >::empty()) by {
            assert(src@.map_values(|e: ListEntry| e@).len() == 0);
        }
        assert(out@.map_values(|e: ListEntry| e@).to_multiset() =~= out@.map_values(
            |e: ListEntry| e@,
        ).to_multiset().add(src@.map_values(|e: ListEntry| e@).to_multiset()));
    }
    out
}

} // verus!

use partermai::editor::append_line;
use partermai::router::{Action, ListEntry, UsageHint, dispatch, select_entries};
use partermai::session::Session;

fn fresh_session() -> Session {
    Session::new(
        String::from("main"),
        String::from("/start"),
        String::from("/home/user"),
    )
}

#[test]
fn blank_lines_are_never_recorded() {
    let mut s = fresh_session();
    for line in ["", "   ", "\t", " \t \r\n"] {
        let a = dispatch(&mut s, line);
        assert!(matches!(a, Action::Idle));
        assert_eq!(s.history_len(), 0);
    }
}

#[test]
fn single_ls_appends_exactly_one_entry() {
    let mut s = fresh_session();
    let a = dispatch(&mut s, "ls");
    match a {
        Action::ListDir { target, show_hidden } => {
            assert_eq!(target, "/start");
            assert!(!show_hidden);
        },
        _ => panic!("ls must list the current directory"),
    }
    assert_eq!(s.history, vec!["ls"]);
}

#[test]
fn cd_then_pwd_prints_the_new_directory() {
    let mut s = fresh_session();
    let a = dispatch(&mut s, "cd /tmp");
    match a {
        Action::ChangeDir { path } => {
            assert_eq!(path, "/tmp");
            let resolved = s.env.resolve(&path);
            assert_eq!(resolved, "/tmp");
            s.env.change_directory(&path, true).unwrap();
        },
        _ => panic!("cd must request a directory change"),
    }
    let a = dispatch(&mut s, "pwd");
    match a {
        Action::PrintWorkingDir { dir } => assert_eq!(dir, "/tmp"),
        _ => panic!("pwd must print the working directory"),
    }
    assert_eq!(s.history, vec!["cd /tmp", "pwd"]);
}

#[test]
fn cd_without_argument_goes_home() {
    let mut s = fresh_session();
    let a = dispatch(&mut s, "cd");
    match a {
        Action::ChangeDir { path } => {
            assert_eq!(path, "~");
            s.env.change_directory(&path, true).unwrap();
        },
        _ => panic!("cd must request a directory change"),
    }
    assert_eq!(s.env.current_dir_display(), "/home/user");
}

#[test]
fn exit_and_quit_leave_the_session() {
    let mut s = fresh_session();
    assert!(matches!(dispatch(&mut s, "exit"), Action::ExitSession));
    assert!(matches!(dispatch(&mut s, "quit"), Action::ExitSession));
    assert_eq!(s.history, vec!["exit", "quit"]);
}

#[test]
fn builtins_win_over_external_programs() {
    let mut s = fresh_session();
    // `ls` exists as a program on most systems; the built-in still wins
    assert!(matches!(dispatch(&mut s, "ls"), Action::ListDir { .. }));
    assert!(matches!(dispatch(&mut s, "history"), Action::ShowHistory));
    assert!(matches!(dispatch(&mut s, "clear"), Action::ClearScreen));
}

#[test]
fn external_command_carries_args_and_directory() {
    let mut s = fresh_session();
    let a = dispatch(&mut s, "grep -r needle .");
    match a {
        Action::RunExternal { program, args, current_dir } => {
            assert_eq!(program, "grep");
            assert_eq!(args, vec!["-r", "needle", "."]);
            assert_eq!(current_dir, "/start");
        },
        _ => panic!("an unknown first token must spawn an external program"),
    }
    assert_eq!(s.history, vec!["grep -r needle ."]);
}

#[test]
fn ls_flags_and_path_in_either_order() {
    let mut s = fresh_session();
    match dispatch(&mut s, "ls -a") {
        Action::ListDir { target, show_hidden } => {
            assert_eq!(target, "/start");
            assert!(show_hidden);
        },
        _ => panic!("ls -a must list with hidden entries"),
    }
    match dispatch(&mut s, "ls -a docs") {
        Action::ListDir { target, show_hidden } => {
            assert_eq!(target, "/start/docs");
            assert!(show_hidden);
        },
        _ => panic!("ls -a docs must list the given path"),
    }
    match dispatch(&mut s, "ls docs -a") {
        Action::ListDir { target, show_hidden } => {
            assert_eq!(target, "/start/docs");
            assert!(show_hidden);
        },
        _ => panic!("flag order must not matter"),
    }
    match dispatch(&mut s, "ls one two") {
        Action::ListDir { target, show_hidden } => {
            // the last path argument wins
            assert_eq!(target, "/start/two");
            assert!(!show_hidden);
        },
        _ => panic!("ls with two paths must keep the last"),
    }
    match dispatch(&mut s, "ls ~") {
        Action::ListDir { target, .. } => assert_eq!(target, "/home/user"),
        _ => panic!("ls ~ must list the home directory"),
    }
}

#[test]
fn cat_resolves_relative_to_current_dir() {
    let mut s = fresh_session();
    match dispatch(&mut s, "cat notes.txt") {
        Action::ReadFile { target } => assert_eq!(target, "/start/notes.txt"),
        _ => panic!("cat must read the resolved file"),
    }
    match dispatch(&mut s, "cat") {
        Action::Usage { hint } => assert_eq!(hint, UsageHint::Cat),
        _ => panic!("cat without a path is a usage error"),
    }
}

#[test]
fn tip_comes_from_the_fixed_pool() {
    let pool = [
        "Use 'clear' to clean the terminal",
        "Try 'partermai help' to see all available commands",
        "Use 'tip' to see another hint like this one",
        "Use 'cd ~' to jump back to your home directory",
        "Use 'ls -a' to show hidden files",
        "Use 'history' to replay this session's commands",
    ];
    let mut s = fresh_session();
    for _ in 0..32 {
        match dispatch(&mut s, "tip") {
            Action::ShowTip { tip } => assert!(pool.contains(&tip.as_str())),
            _ => panic!("tip must show a hint"),
        }
    }
}

#[test]
fn assistant_commands_through_dispatch() {
    let mut s = fresh_session();
    // nothing active yet
    assert!(matches!(dispatch(&mut s, "voia-clear"), Action::AssistantInactive));
    assert!(matches!(dispatch(&mut s, "voia-model gpt-4"), Action::AssistantInactive));
    match dispatch(&mut s, "voia-model") {
        Action::ShowModelMenu { current } => assert!(current.is_none()),
        _ => panic!("voia-model without a name shows the menu"),
    }
    // asking is handed out as an action, question tokens joined by spaces
    match dispatch(&mut s, "voia   what is   up") {
        Action::AskAssistant { question } => assert_eq!(question, "what is up"),
        _ => panic!("voia with a question must ask"),
    }
    assert!(matches!(
        dispatch(&mut s, "voia"),
        Action::Usage { hint: UsageHint::Ask }
    ));
    // setting a key activates the assistant in memory and asks for a persist
    match dispatch(&mut s, "voia-setkey SECRET-REDACTED") {
        Action::PersistCredential { contents } => {
            assert_eq!(contents, "OPENAI_API_KEY=SECRET-REDACTED");
        },
        _ => panic!("voia-setkey must persist the credential"),
    }
    assert!(s.assistant.is_some());
    assert!(matches!(
        dispatch(&mut s, "voia-setkey"),
        Action::Usage { hint: UsageHint::SetKey }
    ));
    // with an assistant active, the model can be changed, invalid is a no-op
    match dispatch(&mut s, "voia-model gpt-4") {
        Action::ShowModel { model } => assert_eq!(model, "gpt-4"),
        _ => panic!("voia-model with a valid name selects it"),
    }
    match dispatch(&mut s, "voia-model modelZ") {
        Action::ShowModel { model } => assert_eq!(model, "gpt-4"),
        _ => panic!("an unrecognized model name changes nothing"),
    }
    // clearing now reports success
    assert!(matches!(dispatch(&mut s, "voia-clear"), Action::ClearedTranscript));
}

#[test]
fn meta_command_help_only() {
    let mut s = fresh_session();
    assert!(matches!(dispatch(&mut s, "partermai help"), Action::ShowHelp));
    assert!(matches!(dispatch(&mut s, "partermai nonsense"), Action::UnknownMeta));
    assert!(matches!(dispatch(&mut s, "partermai"), Action::UnknownMeta));
}

#[test]
fn listing_filters_dotfiles_and_sorts() {
    let entries = vec![
        ListEntry { name: String::from("zebra"), is_dir: false },
        ListEntry { name: String::from(".hidden"), is_dir: false },
        ListEntry { name: String::from("apps"), is_dir: true },
        ListEntry { name: String::from("music"), is_dir: true },
    ];
    let shown = select_entries(entries, false);
    let names: Vec<&str> = shown.iter().map(|e| e.name.as_str()).collect();
    assert_eq!(names, vec!["apps", "music", "zebra"]);
    assert!(shown[0].is_dir);
    assert!(!shown[2].is_dir);

    let entries_all = vec![
        ListEntry { name: String::from("zebra"), is_dir: false },
        ListEntry { name: String::from(".hidden"), is_dir: false },
        ListEntry { name: String::from("apps"), is_dir: true },
    ];
    let shown_all = select_entries(entries_all, true);
    let names_all: Vec<&str> = shown_all.iter().map(|e| e.name.as_str()).collect();
    assert_eq!(names_all, vec![".hidden", "apps", "zebra"]);
}

#[test]
fn tabs_and_repeated_spaces_separate_tokens() {
    let mut s = fresh_session();
    match dispatch(&mut s, "\t grep \t -n   pat\t") {
        Action::RunExternal { program, args, .. } => {
            assert_eq!(program, "grep");
            assert_eq!(args, vec!["-n", "pat"]);
        },
        _ => panic!("whitespace runs must not produce empty tokens"),
    }
}

#[test]
fn unknown_flags_of_ls_are_ignored() {
    let mut s = fresh_session();
    match dispatch(&mut s, "ls -x") {
        Action::ListDir { target, show_hidden } => {
            assert_eq!(target, "/start");
            assert!(!show_hidden);
        },
        _ => panic!("an unknown flag is neither a path nor -a"),
    }
}

#[test]
fn partermai_prefixed_tokens_are_meta() {
    let mut s = fresh_session();
    assert!(matches!(dispatch(&mut s, "partermai-x help"), Action::ShowHelp));
    assert!(matches!(dispatch(&mut s, "partermai-x"), Action::UnknownMeta));
}

#[test]
fn editor_buffer_appends_lines_verbatim() {
    let mut buf = String::new();
    append_line(&mut buf, "fn main() {");
    append_line(&mut buf, "}");
    assert_eq!(buf, "fn main() {\n}\n");
}

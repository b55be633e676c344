use partermai::assistant::{AssistantContext, ModelId, Role, credential_line};
use partermai::environment::Environment;
use partermai::errors::ShellError;
use partermai::manager::SessionManager;

#[test]
fn create_twice_duplicate_and_empty_history() {
    let mut mgr = SessionManager::new();
    let r1 = mgr.create("alpha", String::from("/work"), String::from("/home/u"));
    assert!(r1.is_ok());
    let r2 = mgr.create("alpha", String::from("/elsewhere"), String::from("/home/u"));
    assert_eq!(r2, Err(ShellError::DuplicateSession));
    assert_eq!(mgr.len(), 1);
    // the first call's session is untouched: its history is still empty
    mgr.switch("alpha").unwrap();
    let session = mgr.take_active().unwrap();
    assert_eq!(session.history_len(), 0);
    assert!(session.history.is_empty());
    mgr.restore(session).unwrap();
}

#[test]
fn switch_missing_on_empty_registry() {
    let mut mgr = SessionManager::new();
    assert!(mgr.active_name().is_none());
    let r = mgr.switch("missing");
    assert_eq!(r, Err(ShellError::SessionNotFound));
    assert!(mgr.active_name().is_none());
    assert_eq!(mgr.len(), 0);
}

#[test]
fn close_active_clears_active() {
    let mut mgr = SessionManager::new();
    mgr.create("a", String::from("/"), String::from("/home/u")).unwrap();
    mgr.create("b", String::from("/"), String::from("/home/u")).unwrap();
    mgr.switch("a").unwrap();
    // closing a non-active session leaves `active` unchanged
    mgr.close("b").unwrap();
    assert_eq!(mgr.active_name().as_deref(), Some("a"));
    // closing the active session clears `active`
    mgr.close("a").unwrap();
    assert!(mgr.active_name().is_none());
    assert_eq!(mgr.len(), 0);
}

#[test]
fn close_missing_reports_not_found() {
    let mut mgr = SessionManager::new();
    let r = mgr.close("ghost");
    assert_eq!(r, Err(ShellError::SessionNotFound));
}

#[test]
fn list_is_sorted_by_name() {
    let mut mgr = SessionManager::new();
    for name in ["zeta", "alpha", "mid", "beta"] {
        mgr.create(name, String::from("/"), String::from("/home/u")).unwrap();
    }
    let names = mgr.list();
    assert_eq!(names, vec!["alpha", "beta", "mid", "zeta"]);
}

#[test]
fn change_directory_home_alias() {
    let mut env = Environment::new(String::from("/somewhere/deep"), String::from("/home/user"));
    let r = env.change_directory("~", true);
    assert!(r.is_ok());
    assert_eq!(env.current_dir_display(), "/home/user");
    // and again from another starting point
    let mut env2 = Environment::new(String::from("/tmp"), String::from("/home/user"));
    env2.change_directory("~", true).unwrap();
    assert_eq!(env2.current_dir_display(), "/home/user");
}

#[test]
fn change_directory_missing_path_untouched() {
    let mut env = Environment::new(String::from("/start"), String::from("/home/user"));
    let before = env.current_dir_display();
    let r = env.change_directory("/definitely/not/a/real/path", false);
    assert_eq!(r, Err(ShellError::PathNotFound));
    assert_eq!(env.current_dir_display(), before);
}

#[test]
fn resolve_forms() {
    let env = Environment::new(String::from("/cur"), String::from("/home/user"));
    assert_eq!(env.resolve("~"), "/home/user");
    assert_eq!(env.resolve("~/notes"), "/home/user/notes");
    assert_eq!(env.resolve("/abs/path"), "/abs/path");
    assert_eq!(env.resolve("rel/path"), "/cur/rel/path");
    let rooty = Environment::new(String::from("/"), String::from("/home/user"));
    assert_eq!(rooty.resolve("etc"), "/etc");
}

#[test]
fn ask_without_credential_fails_and_records_nothing() {
    let mut ctx = AssistantContext::new(None);
    let r = ctx.begin_ask("hi");
    assert!(matches!(r, Err(ShellError::MissingCredential)));
    assert_eq!(ctx.transcript_len(), 0);
}

#[test]
fn activate_needs_credential() {
    assert!(matches!(
        AssistantContext::activate(None),
        Err(ShellError::MissingCredential)
    ));
    let ctx = AssistantContext::activate(Some(String::from("SECRET-REDACTED"))).unwrap();
    assert!(ctx.has_credential());
    assert_eq!(ctx.model_name(), "gpt-3.5-turbo");
    assert_eq!(ctx.transcript_len(), 0);
}

#[test]
fn two_asks_alternate_four_turns() {
    let mut ctx = AssistantContext::activate(Some(String::from("SECRET-REDACTED"))).unwrap();
    let req1 = ctx.begin_ask("hi").unwrap();
    assert_eq!(req1.prompt, "User: hi\nVoia:");
    assert_eq!(req1.max_tokens, 150);
    assert_eq!(req1.model, "gpt-3.5-turbo");
    let reply1 = ctx.record_reply(&vec![String::from("  hello there  ")]);
    assert_eq!(reply1, "hello there");
    let req2 = ctx.begin_ask("hi").unwrap();
    assert_eq!(req2.prompt, "User: hi\nVoia: hello there\nUser: hi\nVoia:");
    let reply2 = ctx.record_reply(&vec![]);
    assert_eq!(reply2, "I'm sorry, I couldn't generate a response.");
    assert_eq!(ctx.transcript_len(), 4);
    let roles: Vec<Role> = (0..4).map(|i| ctx.turn(i).role).collect();
    assert_eq!(roles, vec![Role::User, Role::Assistant, Role::User, Role::Assistant]);
    assert_eq!(ctx.turn(0).text, "hi");
    assert_eq!(ctx.turn(1).text, "hello there");
    assert_eq!(ctx.turn(3).text, "I'm sorry, I couldn't generate a response.");
}

#[test]
fn failed_transport_keeps_user_turn() {
    let mut ctx = AssistantContext::activate(Some(String::from("SECRET-REDACTED"))).unwrap();
    let _req = ctx.begin_ask("are you there").unwrap();
    // the network call failed: no reply is recorded, the user turn stays
    assert_eq!(ctx.transcript_len(), 1);
    assert_eq!(ctx.turn(0).role, Role::User);
    assert_eq!(ctx.turn(0).text, "are you there");
}

#[test]
fn set_model_unknown_is_no_op() {
    let mut ctx = AssistantContext::activate(Some(String::from("SECRET-REDACTED"))).unwrap();
    ctx.set_model("modelZ");
    assert_eq!(ctx.model_name(), "gpt-3.5-turbo");
    ctx.set_model("gpt-4");
    assert_eq!(ctx.model_name(), "gpt-4");
    ctx.set_model("modelZ");
    assert_eq!(ctx.model_name(), "gpt-4");
    ctx.set_model("text-davinci-003");
    assert_eq!(ctx.model_name(), "text-davinci-003");
}

#[test]
fn model_names_round_trip() {
    for name in ["gpt-3.5-turbo", "gpt-4", "text-davinci-003"] {
        let m = ModelId::from_name(name).unwrap();
        assert_eq!(m.name(), name);
    }
    assert!(ModelId::from_name("modelZ").is_none());
    assert!(ModelId::from_name("").is_none());
}

#[test]
fn clear_history_keeps_credential_and_model() {
    let mut ctx = AssistantContext::activate(Some(String::from("SECRET-REDACTED"))).unwrap();
    ctx.set_model("gpt-4");
    ctx.begin_ask("q").unwrap();
    ctx.record_reply(&vec![String::from("a")]);
    ctx.clear_history();
    assert_eq!(ctx.transcript_len(), 0);
    assert!(ctx.has_credential());
    assert_eq!(ctx.model_name(), "gpt-4");
}

#[test]
fn set_credential_updates_memory_and_line() {
    let mut ctx = AssistantContext::new(None);
    ctx.set_credential("SECRET-REDACTED");
    assert!(ctx.has_credential());
    assert_eq!(
        credential_line("SECRET-REDACTED"),
        "OPENAI_API_KEY=SECRET-REDACTED"
    );
}

#[test]
fn take_active_and_restore_round_trip() {
    let mut mgr = SessionManager::new();
    mgr.create("work", String::from("/w"), String::from("/home/u")).unwrap();
    mgr.create("play", String::from("/p"), String::from("/home/u")).unwrap();
    mgr.switch("work").unwrap();
    let session = mgr.take_active().unwrap();
    assert_eq!(session.name, "work");
    // while the loop owns the session, the registry no longer lists it
    assert_eq!(mgr.len(), 1);
    assert!(mgr.active_name().is_none());
    mgr.restore(session).unwrap();
    assert_eq!(mgr.len(), 2);
    assert_eq!(mgr.active_name().as_deref(), Some("work"));
    assert_eq!(mgr.list(), vec!["play", "work"]);
}

#[test]
fn take_active_without_active_session() {
    let mut mgr = SessionManager::new();
    mgr.create("a", String::from("/"), String::from("/home/u")).unwrap();
    assert!(mgr.take_active().is_none());
}

#[test]
fn error_messages_name_each_failure() {
    let cases = [
        (ShellError::PathNotFound, "directory not found"),
        (ShellError::DuplicateSession, "session with this name already exists"),
        (ShellError::SessionNotFound, "session not found"),
        (ShellError::CommandNotFound, "command not found"),
        (ShellError::MissingCredential, "no API credential is configured"),
        (ShellError::TransportError, "the network request failed"),
        (ShellError::PersistError, "the credential could not be saved"),
        (ShellError::IOFailure, "file could not be read or written"),
    ];
    for (err, msg) in cases {
        assert_eq!(err.message(), msg);
    }
}

use cosmic_osd::subscriptions::polkit_agent_helper::{
    after_attempt, agent_next, event, frame_message, is_whitespace_char, resolve_helper_bin_path_in,
    responder_next, Event, Retry, AUTH_ATTEMPTS, HELPER_BIN_CANDIDATES, HELPER_SOCKET_PATH,
};
use std::cell::RefCell;
use std::ops::ControlFlow;

const FEDORA_HELPER: &str = "/usr/lib/polkit-1/polkit-agent-helper-1";
const NIX_HELPER: &str = "/run/wrappers/bin/polkit-agent-helper-1";

fn present(paths: &'static [&'static str]) -> impl Fn(&str) -> bool {
    move |path| paths.iter().any(|present| *present == path)
}

#[test]
fn compile_time_override_is_used_when_the_environment_is_silent() {
    // How a Fedora build behaves today: `just build-release` bakes the path in.
    assert_eq!(
        resolve_helper_bin_path_in(
            None,
            Some(FEDORA_HELPER),
            &HELPER_BIN_CANDIDATES,
            &present(&[])
        ),
        Some(String::from(FEDORA_HELPER))
    );
}

#[test]
fn runtime_override_wins_over_the_compile_time_one() {
    let store_helper = "/nix/store/00000000-polkit/lib/polkit-1/polkit-agent-helper-1";

    assert_eq!(
        resolve_helper_bin_path_in(
            Some(String::from(store_helper)),
            Some(FEDORA_HELPER),
            &HELPER_BIN_CANDIDATES,
            &present(&[FEDORA_HELPER])
        ),
        Some(String::from(store_helper))
    );
}

#[test]
fn empty_overrides_are_ignored() {
    assert_eq!(
        resolve_helper_bin_path_in(
            Some(String::new()),
            Some(""),
            &HELPER_BIN_CANDIDATES,
            &present(&[FEDORA_HELPER])
        ),
        Some(String::from(FEDORA_HELPER))
    );
}

#[test]
fn fhs_layout_is_probed() {
    assert_eq!(
        resolve_helper_bin_path_in(None, None, &HELPER_BIN_CANDIDATES, &present(&[FEDORA_HELPER])),
        Some(String::from(FEDORA_HELPER))
    );
}

#[test]
fn nix_layout_is_probed() {
    // Nothing under /usr exists there; the setuid wrapper does.
    assert_eq!(
        resolve_helper_bin_path_in(None, None, &HELPER_BIN_CANDIDATES, &present(&[NIX_HELPER])),
        Some(String::from(NIX_HELPER))
    );
}

#[test]
fn nothing_found_is_reported_rather_than_spawned() {
    assert_eq!(
        resolve_helper_bin_path_in(None, None, &HELPER_BIN_CANDIDATES, &present(&[])),
        None
    );
}

#[test]
fn probing_stops_at_the_first_helper_found() {
    let asked = RefCell::new(Vec::new());
    let probe = |path: &str| {
        asked.borrow_mut().push(path.to_string());
        path == "/usr/libexec/polkit-agent-helper-1" || path == NIX_HELPER
    };
    assert_eq!(
        resolve_helper_bin_path_in(None, None, &HELPER_BIN_CANDIDATES, &probe),
        Some(String::from("/usr/libexec/polkit-agent-helper-1"))
    );
    assert_eq!(asked.borrow().len(), 3);
}

#[test]
fn overrides_are_not_probed() {
    let asked = RefCell::new(0);
    let probe = |_: &str| {
        *asked.borrow_mut() += 1;
        true
    };
    assert_eq!(
        resolve_helper_bin_path_in(Some(String::from("/opt/helper")), None, &HELPER_BIN_CANDIDATES, &probe),
        Some(String::from("/opt/helper"))
    );
    assert_eq!(*asked.borrow(), 0);
}

#[test]
fn socket_path_is_the_system_one() {
    assert_eq!(HELPER_SOCKET_PATH, "/run/polkit/agent-helper.socket");
}

fn read(line: &str) -> Result<Event<()>, &str> {
    event::<()>(line)
}

fn is_request(e: &Result<Event<()>, &str>, text: &str, echo: bool) -> bool {
    matches!(e, Ok(Event::Request(s, b)) if s == text && *b == echo)
}

#[test]
fn prompts_are_read_with_their_echo_mode() {
    assert!(is_request(&read("PAM_PROMPT_ECHO_OFF Password: \n"), "Password:", false));
    assert!(is_request(&read("PAM_PROMPT_ECHO_ON Username:\n"), "Username:", true));
}

#[test]
fn messages_are_read() {
    assert!(matches!(read("PAM_ERROR_MSG Authentication failure\n"), Ok(Event::ShowError(s)) if s == "Authentication failure"));
    assert!(matches!(read("PAM_TEXT_INFO Touch the key\n"), Ok(Event::ShowDebug(s)) if s == "Touch the key"));
}

#[test]
fn completions_are_read() {
    assert!(matches!(read("SUCCESS\n"), Ok(Event::Complete(true))));
    assert!(matches!(read("FAILURE\n"), Ok(Event::Complete(false))));
    assert!(matches!(read("  SUCCESS  "), Ok(Event::Complete(true))));
}

#[test]
fn only_the_first_space_splits() {
    assert!(is_request(&read("PAM_PROMPT_ECHO_OFF Enter  your PIN: \n"), "Enter  your PIN:", false));
}

#[test]
fn keyword_without_text_gives_empty_text() {
    assert!(is_request(&read("PAM_PROMPT_ECHO_OFF\n"), "", false));
}

#[test]
fn unknown_keywords_are_given_back() {
    assert_eq!(read("HELLO there\n").unwrap_err(), "HELLO");
    assert_eq!(read("\u{3000}pam_text_info x").unwrap_err(), "pam_text_info");
    assert_eq!(read("").unwrap_err(), "");
    assert_eq!(read(" \t\n").unwrap_err(), "");
}

#[test]
fn unicode_whitespace_is_trimmed() {
    assert!(matches!(read("\u{2003}SUCCESS\u{a0}\r\n"), Ok(Event::Complete(true))));
    assert!(is_whitespace_char('\u{85}'));
    assert!(is_whitespace_char('\u{205f}'));
    assert!(!is_whitespace_char('\u{200b}'));
    assert!(!is_whitespace_char('x'));
}

#[test]
fn answers_are_framed_as_lines() {
    assert_eq!(frame_message("hunter2"), "hunter2\n");
    assert_eq!(frame_message(""), "\n");
    assert_eq!(frame_message("cookie-1 2"), "cookie-1 2\n");
}

#[test]
fn completion_ends_the_conversation() {
    let (out, flow) = agent_next::<(), ()>(Ok(Some(Event::Complete(true))));
    assert!(matches!(out, Some(Event::Complete(true))));
    assert_eq!(flow, ControlFlow::Break(true));
    let (out, flow) = agent_next::<(), ()>(Ok(Some(Event::Complete(false))));
    assert!(matches!(out, Some(Event::Complete(false))));
    assert_eq!(flow, ControlFlow::Break(false));
}

#[test]
fn other_events_are_passed_on() {
    let (out, flow) = agent_next::<(), ()>(Ok(Some(Event::ShowError(String::from("no")))));
    assert!(matches!(out, Some(Event::ShowError(s)) if s == "no"));
    assert_eq!(flow, ControlFlow::Continue(()));
}

#[test]
fn end_of_output_ends_without_success() {
    let (out, flow) = agent_next::<(), ()>(Ok(None));
    assert!(out.is_none());
    assert_eq!(flow, ControlFlow::Break(false));
}

#[test]
fn read_errors_are_reported_as_failed() {
    let (out, flow) = agent_next::<(), &str>(Err("broken pipe"));
    assert!(matches!(out, Some(Event::Failed)));
    assert_eq!(flow, ControlFlow::Break(false));
}

#[test]
fn failed_writes_are_reported_as_failed() {
    let (out, flow) = responder_next::<(), &str>(Err("broken pipe"));
    assert!(matches!(out, Some(Event::Failed)));
    assert_eq!(flow, ControlFlow::Break(()));
    let (out, flow) = responder_next::<(), &str>(Ok(()));
    assert!(out.is_none());
    assert_eq!(flow, ControlFlow::Continue(()));
}

#[test]
fn attempts_are_retried_until_used_up() {
    assert_eq!(AUTH_ATTEMPTS, 3);
    assert_eq!(after_attempt(1, ControlFlow::Break(false)), Retry::Again);
    assert_eq!(after_attempt(2, ControlFlow::Continue(())), Retry::Again);
    assert_eq!(after_attempt(3, ControlFlow::Break(false)), Retry::GiveUp);
    assert_eq!(after_attempt(3, ControlFlow::Continue(())), Retry::GiveUp);
}

#[test]
fn success_stops_retrying() {
    assert_eq!(after_attempt(1, ControlFlow::Break(true)), Retry::Done);
    assert_eq!(after_attempt(3, ControlFlow::Break(true)), Retry::Done);
}

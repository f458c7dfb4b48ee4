use cosmic_osd::components::polkit_dialog::{Command, LayerEvent, Msg, PolkitError, State};
use cosmic_osd::subscriptions::polkit_agent_helper::Event;

type Dialog = State<u8>;

fn step(state: Dialog, msg: Msg<u8>) -> (Dialog, Command<u8>) {
    let (next, cmd) = state.update(msg);
    (next.expect("dialog stays open"), cmd)
}

#[test]
fn a_new_dialog_takes_input_but_cannot_submit() {
    let state = Dialog::new();
    let p = state.presentation();
    assert!(p.input_enabled);
    assert!(!p.authenticate_enabled);
    assert!(!p.show_invalid_password);
    assert!(p.secure);
    assert!(p.masked);
    assert_eq!(p.placeholder, "");
}

#[test]
fn the_prompt_becomes_the_placeholder() {
    let (state, _) = step(Dialog::new(), Msg::Agent(Event::Request(String::from("Password::"), false)));
    assert_eq!(state.presentation().placeholder, "Password");
    let (state, _) = step(state, Msg::Agent(Event::Request(String::from("PIN: "), true)));
    let p = state.presentation();
    assert_eq!(p.placeholder, "PIN: ");
    assert!(!p.secure);
    assert!(!p.masked);
}

#[test]
fn typed_password_is_sent_through_the_responder() {
    let (state, _) = step(Dialog::new(), Msg::Agent(Event::Responder(7)));
    assert!(state.presentation().authenticate_enabled);
    let (state, _) = step(state, Msg::Password(String::from("hunter2")));
    assert_eq!(state.password(), "hunter2");
    let (state, cmd) = step(state, Msg::Authenticate);
    assert!(matches!(cmd, Command::SendPassword(7, ref p) if p == "hunter2"));
    assert!(!state.presentation().input_enabled);
}

#[test]
fn nothing_is_sent_without_a_responder() {
    let (state, _) = step(Dialog::new(), Msg::Password(String::from("x")));
    let (state, cmd) = step(state, Msg::Authenticate);
    assert!(matches!(cmd, Command::Nothing));
    assert!(!state.presentation().input_enabled);
}

#[test]
fn a_failed_send_gives_the_controls_back() {
    let (state, _) = step(Dialog::new(), Msg::Agent(Event::Responder(1)));
    let (state, _) = step(state, Msg::Password(String::from("abc")));
    let (state, _) = step(state, Msg::Authenticate);
    let (state, cmd) = step(state, Msg::Sent(false));
    assert!(matches!(cmd, Command::Nothing));
    assert!(state.presentation().input_enabled);
    assert_eq!(state.password(), "");
    let (state, _) = step(state, Msg::Sent(true));
    assert!(state.presentation().input_enabled);
}

#[test]
fn a_failed_attempt_is_counted_and_resets_the_field() {
    let (state, _) = step(Dialog::new(), Msg::Agent(Event::Responder(1)));
    let (state, _) = step(state, Msg::Password(String::from("wrong")));
    let (state, _) = step(state, Msg::Authenticate);
    let (state, cmd) = step(state, Msg::Agent(Event::Complete(false)));
    assert!(matches!(cmd, Command::FocusInput));
    let p = state.presentation();
    assert!(p.show_invalid_password);
    assert!(p.input_enabled);
    assert!(!p.authenticate_enabled);
    assert_eq!(state.password(), "");
    assert!(!state.has_responder());
}

#[test]
fn success_answers_polkit_and_closes() {
    let (next, cmd) = Dialog::new().update(Msg::Agent(Event::Complete(true)));
    assert!(next.is_none());
    assert!(matches!(cmd, Command::Respond(Ok(()))));
}

#[test]
fn helper_failure_answers_failed_and_closes() {
    let (next, cmd) = Dialog::new().update(Msg::Agent(Event::Failed));
    assert!(next.is_none());
    assert!(matches!(cmd, Command::Respond(Err(PolkitError::Failed))));
}

#[test]
fn cancel_answers_cancelled_and_closes() {
    let (next, cmd) = Dialog::new().update(Msg::Cancel);
    assert!(next.is_none());
    assert!(matches!(cmd, Command::Respond(Err(PolkitError::Cancelled))));
}

#[test]
fn focus_is_given_to_the_field() {
    let (_, cmd) = step(Dialog::new(), Msg::Layer(LayerEvent::Focused));
    assert!(matches!(cmd, Command::FocusInput));
    let (_, cmd) = step(Dialog::new(), Msg::Layer(LayerEvent::Other));
    assert!(matches!(cmd, Command::Nothing));
}

#[test]
fn toggling_twice_masks_again() {
    let (state, _) = step(Dialog::new(), Msg::TogglePasswordVisibility);
    let p = state.presentation();
    assert!(!p.masked);
    assert!(p.offers_conceal);
    let (state, _) = step(state, Msg::TogglePasswordVisibility);
    let p = state.presentation();
    assert!(p.masked);
    assert!(!p.offers_conceal);
}

#[test]
fn helper_texts_do_not_change_the_controls() {
    let (state, cmd) = step(Dialog::new(), Msg::Agent(Event::ShowError(String::from("bad"))));
    assert!(matches!(cmd, Command::Nothing));
    let (state, _) = step(state, Msg::Agent(Event::ShowDebug(String::from("info"))));
    assert!(state.presentation().input_enabled);
}

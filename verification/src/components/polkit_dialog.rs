//! The polkit authentication dialog, as a state machine.
//!
//! The dialog shows the prompt the helper sends, takes the password, and hands
//! it to the helper through the responder it was given. Each message yields
//! the next state (or none, once the dialog has answered polkit and closes)
//! and the one command the surface has to carry out.
use crate::subscriptions::polkit_agent_helper::{chars_of, Event};
use vstd::prelude::*;

verus! {

/// Why authentication did not succeed, as polkit is told.
#[derive(Clone, Copy, Debug, PartialEq, Eq, Structural)]
pub enum PolkitError {
    Cancelled,
    Failed,
}

/// What the layer surface reports about itself.
#[derive(Clone, Copy, Debug, PartialEq, Eq, Structural)]
pub enum LayerEvent {
    /// The surface got keyboard focus.
    Focused,
    /// Anything else about the surface.
    Other,
}

/// A message to the dialog. `R` is the helper's responder.
#[derive(Clone, Debug)]
pub enum Msg<R> {
    Agent(Event<R>),
    Authenticate,
    Cancel,
    Layer(LayerEvent),
    Password(String),
    Sent(bool),
    TogglePasswordVisibility,
}

/// What the surface has to do after a message.
#[derive(Debug)]
pub enum Command<R> {
    /// Nothing.
    Nothing,
    /// Give the password field keyboard focus.
    FocusInput,
    /// Answer polkit with this outcome and close the dialog.
    Respond(Result<(), PolkitError>),
    /// Hand this password to the helper through this responder, and report
    /// with `Msg::Sent` whether that worked.
    SendPassword(R, String),
}

/// The state of an open dialog.
pub struct State<R> {
    responder: Option<R>,
    password: String,
    password_visible: bool,
    message: Option<String>,
    password_label: String,
    echo: bool,
    sensitive: bool,
    retries: u32,
}

/// The abstract state of an open dialog.
pub struct StateView<R> {
    /// The handle to answer the current prompt through, once the helper has
    /// sent one.
    pub responder: Option<R>,
    /// What has been typed.
    pub password: Seq<char>,
    pub password_visible: bool,
    /// The helper's last error or info text.
    pub message: Option<Seq<char>>,
    /// The helper's last prompt.
    pub password_label: Seq<char>,
    /// Whether the prompt's answer may be echoed.
    pub echo: bool,
    /// Whether the controls take input.
    pub sensitive: bool,
    /// How many attempts have failed.
    pub retries: u32,
}

/// The command a message yields, with the responder left out (the command
/// carries a clone of it).
pub enum CommandView {
    Nothing,
    FocusInput,
    Respond(Result<(), PolkitError>),
    SendPassword(Seq<char>),
}

pub open spec fn command_view<R>(cmd: Command<R>) -> CommandView {
    match cmd {
        Command::Nothing => CommandView::Nothing,
        Command::FocusInput => CommandView::FocusInput,
        Command::Respond(outcome) => CommandView::Respond(outcome),
        Command::SendPassword(_, password) => CommandView::SendPassword(password@),
    }
}

impl<R> View for State<R> {
    type V = StateView<R>;

    closed spec fn view(&self) -> StateView<R> {
        StateView {
            responder: self.responder,
            password: self.password@,
            password_visible: self.password_visible,
            message: match self.message {
                Some(m) => Some(m@),
                None => None,
            },
            password_label: self.password_label@,
            echo: self.echo,
            sensitive: self.sensitive,
            retries: self.retries,
        }
    }
}

impl<R> StateView<R> {
    /// The state a dialog opens in.
    pub open spec fn initial() -> StateView<R> {
        StateView {
            responder: None,
            password: Seq::empty(),
            password_visible: false,
            message: None,
            password_label: Seq::empty(),
            echo: false,
            sensitive: true,
            retries: 0,
        }
    }

    /// A message can be taken in this state: counting a failed attempt must
    /// not overflow the counter.
    pub open spec fn accepts(self, msg: Msg<R>) -> bool {
        msg matches Msg::Agent(Event::Complete(false)) ==> self.retries < u32::MAX
    }

    /// The next state (none once the dialog has answered polkit) and the
    /// command for a message.
    pub open spec fn step(self, msg: Msg<R>) -> (Option<StateView<R>>, CommandView) {
        match msg {
            Msg::Layer(LayerEvent::Focused) => (Some(self), CommandView::FocusInput),
            Msg::Layer(LayerEvent::Other) => (Some(self), CommandView::Nothing),
            Msg::Agent(event) => match event {
                Event::Responder(responder) => (
                    Some(StateView { responder: Some(responder), ..self }),
                    CommandView::Nothing,
                ),
                Event::Failed => (None, CommandView::Respond(Err(PolkitError::Failed))),
                Event::Request(label, echo) => (
                    Some(StateView { password_label: label@, echo, ..self }),
                    CommandView::Nothing,
                ),
                Event::ShowError(text) => (
                    Some(StateView { message: Some(text@), ..self }),
                    CommandView::Nothing,
                ),
                Event::ShowDebug(text) => (
                    Some(StateView { message: Some(text@), ..self }),
                    CommandView::Nothing,
                ),
                Event::Complete(success) => if success {
                    (None, CommandView::Respond(Ok(())))
                } else {
                    (
                        Some(
                            StateView {
                                retries: (self.retries + 1) as u32,
                                sensitive: true,
                                responder: None,
                                password: Seq::empty(),
                                ..self
                            },
                        ),
                        CommandView::FocusInput,
                    )
                },
            },
            Msg::Authenticate => {
                let next = StateView { sensitive: false, ..self };
                if self.responder is Some {
                    (Some(next), CommandView::SendPassword(self.password))
                } else {
                    (Some(next), CommandView::Nothing)
                }
            },
            Msg::Cancel => (None, CommandView::Respond(Err(PolkitError::Cancelled))),
            Msg::Password(password) => (
                Some(StateView { password: password@, ..self }),
                CommandView::Nothing,
            ),
            Msg::TogglePasswordVisibility => (
                Some(StateView { password_visible: !self.password_visible, ..self }),
                CommandView::Nothing,
            ),
            Msg::Sent(success) => if success {
                (Some(self), CommandView::Nothing)
            } else {
                (Some(StateView { sensitive: true, password: Seq::empty(), ..self }), CommandView::Nothing)
            },
        }
    }
}

pub open spec fn state_view<R>(s: Option<State<R>>) -> Option<StateView<R>> {
    match s {
        Some(s) => Some(s@),
        None => None,
    }
}

/// `s` without the colons at its end.
pub open spec fn trim_end_colons(s: Seq<char>) -> Seq<char>
    decreases s.len(),
{
    if s.len() > 0 && s.last() == ':' {
        trim_end_colons(s.drop_last())
    } else {
        s
    }
}

/// What the dialog shows and which controls take input.
#[derive(Debug)]
pub struct Presentation {
    /// The prompt, without its trailing colons, shown inside the empty field.
    pub placeholder: String,
    /// The field is a secret one, with the lock and the reveal toggle.
    pub secure: bool,
    /// The field's text is masked.
    pub masked: bool,
    /// The reveal toggle offers to conceal the text again (the text is shown).
    pub offers_conceal: bool,
    /// Typing and cancelling are possible.
    pub input_enabled: bool,
    /// Submitting the password is possible.
    pub authenticate_enabled: bool,
    /// The "invalid password" line is shown.
    pub show_invalid_password: bool,
}

impl<R> State<R> {
    /// A dialog that has not heard from the helper yet.
    pub fn new() -> (state: Self)
        ensures
            state@ == StateView::<R>::initial(),
            state@.responder is None,
            state@.password.len() == 0,
            !state@.password_visible,
            state@.message is None,
            state@.password_label.len() == 0,
            !state@.echo,
            state@.sensitive,
            state@.retries == 0,
    {
        State {
            responder: None,
            password: String::new(),
            password_visible: false,
            message: None,
            password_label: String::new(),
            echo: false,
            sensitive: true,
            retries: 0,
        }
    }

    /// What has been typed into the password field.
    pub fn password(&self) -> (password: &str)
        ensures
            password@ == self@.password,
    {
        self.password.as_str()
    }

    /// Whether a prompt can be answered: the helper has handed over a
    /// responder.
    pub fn has_responder(&self) -> (b: bool)
        ensures
            b == self@.responder is Some,
    {
        self.responder.is_some()
    }

    /// Whether `update` can take this message; see `StateView::accepts`.
    pub fn accepts(&self, msg: &Msg<R>) -> (ok: bool)
        ensures
            ok == self@.accepts(*msg),
    {
        match msg {
            Msg::Agent(Event::Complete(false)) => self.retries < u32::MAX,
            _ => true,
        }
    }

    /// What the dialog shows for this state.
    pub fn presentation(&self) -> (p: Presentation)
        ensures
            p.placeholder@ == trim_end_colons(self@.password_label),
            p.secure == !self@.echo,
            p.masked == (!self@.echo && !self@.password_visible),
            p.offers_conceal == self@.password_visible,
            p.input_enabled == self@.sensitive,
            p.authenticate_enabled == (self@.sensitive && self@.responder is Some),
            p.show_invalid_password == (self@.retries > 0),
    {
        let label = self.password_label.as_str();
        let v = chars_of(label);
        let mut end = v.len();
        assert(v@.subrange(0, end as int) =~= v@);
        while end > 0 && v[end - 1] == ':'
            invariant
                end <= v@.len(),
                trim_end_colons(v@.subrange(0, end as int)) == trim_end_colons(v@),
            decreases end,
        {
            assert(v@.subrange(0, end as int).drop_last() =~= v@.subrange(0, end - 1));
            end -= 1;
        }
        assert(trim_end_colons(v@.subrange(0, end as int)) == v@.subrange(0, end as int));
        Presentation {
            placeholder: label.substring_char(0, end).to_owned(),
            secure: !self.echo,
            masked: !self.echo && !self.password_visible,
            offers_conceal: self.password_visible,
            input_enabled: self.sensitive,
            authenticate_enabled: self.sensitive && self.responder.is_some(),
            show_invalid_password: self.retries > 0,
        }
    }
}

impl<R: Clone> State<R> {
    /// Take one message. Returns the next state, or none once the dialog has
    /// answered polkit, and what the surface has to do.
    pub fn update(self, msg: Msg<R>) -> (out: (Option<Self>, Command<R>))
        requires
            self@.accepts(msg),
        ensures
            (state_view(out.0), command_view(out.1)) == self@.step(msg),
            out.1 matches Command::SendPassword(r, _) ==> self@.responder matches Some(current)
                && cloned(current, r),
    {
        let mut state = self;
        match msg {
            Msg::Layer(layer_event) => match layer_event {
                LayerEvent::Focused => {
                    return (Some(state), Command::FocusInput);
                },
                LayerEvent::Other => {},
            },
            Msg::Agent(agent_msg) => match agent_msg {
                Event::Responder(responder) => {
                    state.responder = Some(responder);
                },
                Event::Failed => {
                    return (None, Command::Respond(Err(PolkitError::Failed)));
                },
                Event::Request(s, echo) => {
                    state.password_label = s;
                    state.echo = echo;
                },
                Event::ShowError(s) => {
                    state.message = Some(s);
                },
                Event::ShowDebug(s) => {
                    state.message = Some(s);
                },
                Event::Complete(success) => {
                    if success {
                        return (None, Command::Respond(Ok(())));
                    } else {
                        state.retries += 1;
                        state.sensitive = true;
                        state.responder = None;
                        state.password = String::new();
                        return (Some(state), Command::FocusInput);
                    }
                },
            },
            Msg::Authenticate => {
                state.sensitive = false;
                let responder = match &state.responder {
                    Some(responder) => Some(responder.clone()),
                    None => None,
                };
                if let Some(responder) = responder {
                    let password = state.password.clone();
                    return (Some(state), Command::SendPassword(responder, password));
                }
            },
            Msg::Cancel => {
                return (None, Command::Respond(Err(PolkitError::Cancelled)));
            },
            Msg::Password(password) => {
                state.password = password;
            },
            Msg::TogglePasswordVisibility => {
                state.password_visible = !state.password_visible;
            },
            Msg::Sent(success) => {
                if !success {
                    state.sensitive = true;
                    state.password = String::new();
                }
            },
        }
        (Some(state), Command::Nothing)
    }
}

/// The dialog closes exactly when it answers polkit.
pub proof fn law_closes_exactly_when_answering<R>(v: StateView<R>, msg: Msg<R>)
    ensures
        v.step(msg).0 is None <==> v.step(msg).1 is Respond,
{
}

/// Cancelling answers polkit with `Cancelled` from any state.
pub proof fn law_cancel_answers_cancelled<R>(v: StateView<R>)
    ensures
        v.step(Msg::Cancel).0 is None,
        v.step(Msg::Cancel).1 == CommandView::Respond(Err(PolkitError::Cancelled)),
{
}

/// Toggling the password's visibility twice gives back the same dialog.
pub proof fn law_toggle_twice_restores<R>(v: StateView<R>)
    ensures
        v.step(Msg::TogglePasswordVisibility).0 matches Some(once) && once.step(
            Msg::TogglePasswordVisibility,
        ).0 == Some(v),
{
    let once = v.step(Msg::<R>::TogglePasswordVisibility).0->0;
    assert(once.step(Msg::<R>::TogglePasswordVisibility).0->0 =~= v);
}

/// What is typed is what is sent: after `Password(p)`, authenticating hands
/// exactly `p` to the helper when a responder is present, and sends nothing
/// otherwise. Either way the controls stop taking input.
pub proof fn law_typed_password_is_sent<R>(v: StateView<R>, p: String)
    ensures
        v.step(Msg::Password(p)).0 matches Some(typed) && ({
            let (next, cmd) = typed.step(Msg::Authenticate);
            &&& next matches Some(n) && !n.sensitive
            &&& v.responder is Some ==> cmd == CommandView::SendPassword(p@)
            &&& v.responder is None ==> cmd == CommandView::Nothing
        }),
{
}

/// A failed attempt counts a retry, clears the password, drops the spent
/// responder and gives the controls back, keeping the dialog open.
pub proof fn law_failed_attempt_resets<R>(v: StateView<R>)
    requires
        v.retries < u32::MAX,
    ensures
        v.step(Msg::Agent(Event::Complete(false))).0 matches Some(n) && {
            &&& n.retries == v.retries + 1
            &&& n.password.len() == 0
            &&& n.responder is None
            &&& n.sensitive
        },
        v.step(Msg::Agent(Event::Complete(false))).1 == CommandView::FocusInput,
{
}

/// Layer events: focus gives the password field focus; anything else is
/// ignored. The dialog is unchanged either way.
pub proof fn law_layer_events<R>(v: StateView<R>)
    ensures
        v.step(Msg::Layer(LayerEvent::Focused)) == (Some(v), CommandView::FocusInput),
        v.step(Msg::Layer(LayerEvent::Other)) == (Some(v), CommandView::Nothing),
{
}

/// A responder from the helper is kept for answering the prompt; nothing
/// else changes.
pub proof fn law_responder_is_kept<R>(v: StateView<R>, r: R)
    ensures
        v.step(Msg::Agent(Event::Responder(r))) == (
            Some(
                StateView {
                    responder: Some(r),
                    password: v.password,
                    password_visible: v.password_visible,
                    message: v.message,
                    password_label: v.password_label,
                    echo: v.echo,
                    sensitive: v.sensitive,
                    retries: v.retries,
                },
            ),
            CommandView::Nothing,
        ),
{
}

/// A prompt from the helper becomes the field's label, and the prompt's echo
/// mode becomes the field's: a prompt with echo off gets a secret field.
/// Nothing else changes.
pub proof fn law_prompt_sets_label_and_echo<R>(v: StateView<R>, label: String, echo: bool)
    ensures
        v.step(Msg::Agent(Event::Request(label, echo))) == (
            Some(
                StateView {
                    responder: v.responder,
                    password: v.password,
                    password_visible: v.password_visible,
                    message: v.message,
                    password_label: label@,
                    echo,
                    sensitive: v.sensitive,
                    retries: v.retries,
                },
            ),
            CommandView::Nothing,
        ),
{
}

/// The helper's error and info texts are kept as the dialog's message;
/// nothing else changes.
pub proof fn law_helper_texts_are_kept<R>(v: StateView<R>, text: String)
    ensures
        ({
            let kept = StateView {
                responder: v.responder,
                password: v.password,
                password_visible: v.password_visible,
                message: Some(text@),
                password_label: v.password_label,
                echo: v.echo,
                sensitive: v.sensitive,
                retries: v.retries,
            };
            &&& v.step(Msg::Agent(Event::ShowError(text))) == (Some(kept), CommandView::Nothing)
            &&& v.step(Msg::Agent(Event::ShowDebug(text))) == (Some(kept), CommandView::Nothing)
        }),
{
}

/// Success answers polkit with success and closes; a helper failure answers
/// `Failed` and closes.
pub proof fn law_outcomes_answer_polkit<R>(v: StateView<R>)
    ensures
        v.step(Msg::Agent(Event::Complete(true))) == (
            None::<StateView<R>>,
            CommandView::Respond(Ok(())),
        ),
        v.step(Msg::Agent(Event::Failed)) == (
            None::<StateView<R>>,
            CommandView::Respond(Err(PolkitError::Failed)),
        ),
{
}

/// A failed attempt keeps the prompt, its echo mode, the message and the
/// visibility toggle as they were.
pub proof fn law_failed_attempt_keeps_prompt<R>(v: StateView<R>)
    requires
        v.retries < u32::MAX,
    ensures
        v.step(Msg::Agent(Event::Complete(false))).0 matches Some(n) && {
            &&& n.password_label == v.password_label
            &&& n.echo == v.echo
            &&& n.message == v.message
            &&& n.password_visible == v.password_visible
        },
{
}

/// Typing replaces the password and changes nothing else.
pub proof fn law_typing_replaces_password<R>(v: StateView<R>, p: String)
    ensures
        v.step(Msg::Password(p)) == (
            Some(
                StateView {
                    responder: v.responder,
                    password: p@,
                    password_visible: v.password_visible,
                    message: v.message,
                    password_label: v.password_label,
                    echo: v.echo,
                    sensitive: v.sensitive,
                    retries: v.retries,
                },
            ),
            CommandView::Nothing,
        ),
{
}

/// Submitting disables the controls and sends the typed password when a
/// responder is present; nothing else changes.
pub proof fn law_submit<R>(v: StateView<R>)
    ensures
        v.step(Msg::Authenticate).0 == Some(
            StateView {
                responder: v.responder,
                password: v.password,
                password_visible: v.password_visible,
                message: v.message,
                password_label: v.password_label,
                echo: v.echo,
                sensitive: false,
                retries: v.retries,
            },
        ),
        v.step(Msg::Authenticate).1 == if v.responder is Some {
            CommandView::SendPassword(v.password)
        } else {
            CommandView::Nothing
        },
{
}

/// Toggling flips whether the password is shown and changes nothing else.
pub proof fn law_toggle_flips_visibility<R>(v: StateView<R>)
    ensures
        v.step(Msg::TogglePasswordVisibility) == (
            Some(
                StateView {
                    responder: v.responder,
                    password: v.password,
                    password_visible: !v.password_visible,
                    message: v.message,
                    password_label: v.password_label,
                    echo: v.echo,
                    sensitive: v.sensitive,
                    retries: v.retries,
                },
            ),
            CommandView::Nothing,
        ),
{
}

/// A delivered password leaves the dialog waiting; an undelivered one gives
/// the controls back with an empty field.
pub proof fn law_send_result<R>(v: StateView<R>)
    ensures
        v.step(Msg::Sent(true)) == (Some(v), CommandView::Nothing),
        v.step(Msg::Sent(false)) == (
            Some(
                StateView {
                    responder: v.responder,
                    password: Seq::empty(),
                    password_visible: v.password_visible,
                    message: v.message,
                    password_label: v.password_label,
                    echo: v.echo,
                    sensitive: true,
                    retries: v.retries,
                },
            ),
            CommandView::Nothing,
        ),
{
}

/// Only a failed attempt ever changes the retry count, and it adds one.
pub proof fn law_retries_count_failed_attempts<R>(v: StateView<R>, msg: Msg<R>)
    requires
        v.accepts(msg),
    ensures
        v.step(msg).0 matches Some(n) ==> n.retries == if msg matches Msg::Agent(
            Event::Complete(false),
        ) {
            v.retries + 1
        } else {
            v.retries as int
        },
{
}

/// The placeholder is the prompt without its trailing colons: a prefix of
/// it, followed only by colons, and not itself ending in a colon.
pub proof fn law_trim_end_colons(s: Seq<char>)
    ensures
        trim_end_colons(s).len() <= s.len(),
        trim_end_colons(s) == s.subrange(0, trim_end_colons(s).len() as int),
        forall|i: int| trim_end_colons(s).len() <= i < s.len() ==> s[i] == ':',
        trim_end_colons(s).len() > 0 ==> trim_end_colons(s).last() != ':',
    decreases s.len(),
{
    if s.len() > 0 && s.last() == ':' {
        law_trim_end_colons(s.drop_last());
        assert(s.drop_last().subrange(0, trim_end_colons(s).len() as int) =~= s.subrange(
            0,
            trim_end_colons(s).len() as int,
        ));
        assert forall|i: int| trim_end_colons(s).len() <= i < s.len() implies s[i] == ':' by {
            if i < s.len() - 1 {
                assert(s.drop_last()[i] == s[i]);
            }
        }
    } else {
        assert(s.subrange(0, s.len() as int) =~= s);
    }
}

/// The command a message yields, without its responder: what the surface is
/// told to do, and the text of a password to send.
pub proof fn law_command_view<R>(cmd: Command<R>)
    ensures
        cmd is Nothing <==> command_view(cmd) is Nothing,
        cmd is FocusInput <==> command_view(cmd) is FocusInput,
        cmd matches Command::Respond(o) ==> command_view(cmd) == CommandView::Respond(o),
        cmd matches Command::SendPassword(_, p) ==> command_view(cmd) == CommandView::SendPassword(
            p@,
        ),
{
}

/// An open dialog's next state is its abstract state; a closed one has none.
pub proof fn law_state_view<R>(s: Option<State<R>>)
    ensures
        s matches Some(st) ==> state_view(s) == Some(st@),
        s is None ==> state_view(s) is None,
{
}

/// Every message can be taken except a failed attempt once the retry
/// counter is at its maximum.
pub proof fn law_dialog_accepts<R>(v: StateView<R>, msg: Msg<R>)
    ensures
        v.accepts(msg) <==> !(msg matches Msg::Agent(Event::Complete(b)) && !b) || v.retries
            < u32::MAX,
{
}

} // verus!

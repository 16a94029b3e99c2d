//! The default agent: asking for it, and letting the user choose one.
//!
//! Like a command, this runs in steps: the caller does what it is told and reports back.

use vstd::prelude::*;

use crate::notes;
use crate::notes::{complaint_of, no_acts, one_act, push_act, success_of, Act};
use crate::protocol::{CliMessage, HubMessage};
use crate::selectors::{DefaultPickerResult, KnownAgent};
use crate::text::{copy_of, joined};

verus! {

/// What is known of the agent to start.
#[derive(Debug, Clone)]
pub enum DefaultCheck {
    /// The user does not want to go on, or the choice could not be kept.
    Cancelled,
    /// The hub could not be asked: it decides for itself, or reports what is wrong.
    Unknown,
    Agent(String),
}

/// What happened, as the caller reports it.
#[derive(Debug, Clone)]
pub enum DefaultEvent {
    Begin,
    Connected,
    ConnectFailed(String),
    Sent,
    SendFailed(String),
    Received(HubMessage),
    ReceiveFailed,
    /// The known agents whose programs were found.
    Installed(Vec<KnownAgent>),
    Picked(DefaultPickerResult),
}

/// What the caller does next.
#[derive(Debug, Clone)]
pub enum DefaultTodo {
    Nothing,
    Connect,
    Send(CliMessage),
    Receive,
    /// Look which of the known agents are installed.
    FindInstalled,
    /// Let the user choose, with the logo above if it is the first time.
    Pick { installed: Vec<KnownAgent>, current: Option<String>, first_time: bool },
    /// Done, with what is known now.
    Finish(DefaultCheck),
    Exit(i32),
}

#[derive(Debug, Clone)]
pub enum DefaultPhase {
    Ready,
    /// Asking the hub for the default.
    Connecting,
    Sending,
    Receiving,
    /// Looking for installed agents.
    Finding { current: Option<String> },
    Picking,
    /// Telling the hub the new default.
    SaveConnecting { binary: String },
    SaveSending { binary: String },
    SaveReceiving { binary: String },
    Over,
}

/// Finding out the default agent. `asked` is whether the user asked to set it; else it is only
/// asked for when there is none.
pub struct DefaultRun {
    pub asked: bool,
    pub phase: DefaultPhase,
}

pub open spec fn quiet(phase: DefaultPhase, todo: DefaultTodo) -> (
    DefaultPhase,
    Seq<notes::ActView>,
    DefaultTodo,
) {
    (phase, Seq::empty(), todo)
}

pub open spec fn finished(check: DefaultCheck) -> (DefaultPhase, Seq<notes::ActView>, DefaultTodo) {
    quiet(DefaultPhase::Over, DefaultTodo::Finish(check))
}

impl DefaultRun {
    /// The choice could not be kept.
    pub open spec fn not_saved(self, first: Seq<notes::ActView>) -> (
        DefaultPhase,
        Seq<notes::ActView>,
        DefaultTodo,
    ) {
        (
            DefaultPhase::Over,
            if self.asked {
                first.push(
                    notes::ActView::Print(notes::complaint("failed to set default agent"@, false, true)),
                )
            } else {
                first
            },
            DefaultTodo::Finish(DefaultCheck::Cancelled),
        )
    }

    /// The next phase, what is shown and what to do, for each event in each phase.
    pub open spec fn next(self, event: DefaultEvent) -> (DefaultPhase, Seq<notes::ActView>, DefaultTodo) {
        match (self.phase, event) {
            (DefaultPhase::Ready, DefaultEvent::Begin) => (
                DefaultPhase::Connecting,
                if self.asked {
                    seq![notes::ActView::Blank, notes::ActView::Spin("connecting to hub"@)]
                } else {
                    Seq::empty()
                },
                DefaultTodo::Connect,
            ),
            (DefaultPhase::Connecting, DefaultEvent::Connected) => (
                DefaultPhase::Sending,
                if self.asked {
                    seq![notes::ActView::SpinOk("connected"@)]
                } else {
                    Seq::empty()
                },
                DefaultTodo::Send(CliMessage::GetDefault),
            ),
            (DefaultPhase::Connecting, DefaultEvent::ConnectFailed(e)) => if self.asked {
                (
                    DefaultPhase::Over,
                    seq![notes::ActView::SpinFailed("failed to connect to hub: "@ + e@)],
                    DefaultTodo::Exit(1),
                )
            } else {
                finished(DefaultCheck::Unknown)
            },
            (DefaultPhase::Sending, DefaultEvent::Sent) => quiet(
                DefaultPhase::Receiving,
                DefaultTodo::Receive,
            ),
            (DefaultPhase::Sending, DefaultEvent::SendFailed(e)) => if self.asked {
                (
                    DefaultPhase::Over,
                    seq![
                        notes::ActView::Print(
                            notes::complaint("failed to get default: "@ + e@, false, false),
                        ),
                    ],
                    DefaultTodo::Exit(1),
                )
            } else {
                finished(DefaultCheck::Unknown)
            },
            (DefaultPhase::Receiving, DefaultEvent::Received(message)) => match message {
                HubMessage::DefaultAgent { agent_binary } => if self.asked {
                    quiet(
                        DefaultPhase::Finding { current: agent_binary },
                        DefaultTodo::FindInstalled,
                    )
                } else {
                    match agent_binary {
                        // An existing default is passed through
                        Some(binary) => finished(DefaultCheck::Agent(binary)),
                        None => quiet(
                            DefaultPhase::Finding { current: None },
                            DefaultTodo::FindInstalled,
                        ),
                    }
                },
                _ => self.no_default(),
            },
            (DefaultPhase::Receiving, DefaultEvent::ReceiveFailed) => self.no_default(),
            (DefaultPhase::Finding { current }, DefaultEvent::Installed(installed)) => if !self.asked
                && installed@.len() == 1 {
                // A single installed agent is taken without asking
                quiet(
                    DefaultPhase::SaveConnecting { binary: installed@[0].binary },
                    DefaultTodo::Connect,
                )
            } else {
                quiet(
                    DefaultPhase::Picking,
                    DefaultTodo::Pick { installed, current, first_time: !self.asked },
                )
            },
            (DefaultPhase::Picking, DefaultEvent::Picked(result)) => match result {
                DefaultPickerResult::Cancel => finished(DefaultCheck::Cancelled),
                DefaultPickerResult::Selected(binary) => quiet(
                    DefaultPhase::SaveConnecting { binary },
                    DefaultTodo::Connect,
                ),
            },
            (DefaultPhase::SaveConnecting { binary }, DefaultEvent::Connected) => quiet(
                DefaultPhase::SaveSending { binary },
                DefaultTodo::Send(CliMessage::SetDefault { agent_binary: binary }),
            ),
            (DefaultPhase::SaveConnecting { .. }, DefaultEvent::ConnectFailed(_)) => self.not_saved(
                Seq::empty(),
            ),
            (DefaultPhase::SaveSending { binary }, DefaultEvent::Sent) => quiet(
                DefaultPhase::SaveReceiving { binary },
                DefaultTodo::Receive,
            ),
            (DefaultPhase::SaveSending { .. }, DefaultEvent::SendFailed(_)) => self.not_saved(
                Seq::empty(),
            ),
            (DefaultPhase::SaveReceiving { binary }, DefaultEvent::Received(message)) => match message {
                HubMessage::Done => (
                    DefaultPhase::Over,
                    seq![notes::ActView::Print(notes::success("default agent set to "@ + binary@))],
                    DefaultTodo::Finish(DefaultCheck::Agent(binary)),
                ),
                HubMessage::Error { message } => self.not_saved(
                    seq![
                        notes::ActView::Print(
                            notes::complaint("failed to set default: "@ + message@, false, self.asked),
                        ),
                    ],
                ),
                _ => self.not_saved(Seq::empty()),
            },
            (DefaultPhase::SaveReceiving { .. }, DefaultEvent::ReceiveFailed) => self.not_saved(
                Seq::empty(),
            ),
            _ => quiet(self.phase, DefaultTodo::Nothing),
        }
    }

    /// The hub did not say what the default is.
    pub open spec fn no_default(self) -> (DefaultPhase, Seq<notes::ActView>, DefaultTodo) {
        if self.asked {
            quiet(DefaultPhase::Finding { current: None }, DefaultTodo::FindInstalled)
        } else {
            finished(DefaultCheck::Unknown)
        }
    }

    pub fn new(asked: bool) -> (run: Self)
        ensures
            run == (DefaultRun { asked, phase: DefaultPhase::Ready }),
    {
        DefaultRun { asked, phase: DefaultPhase::Ready }
    }

    fn finish(&mut self, check: DefaultCheck) -> (outcome: (Vec<Act>, DefaultTodo))
        ensures
            final(self).asked == old(self).asked,
            (final(self).phase, notes::acts_view(outcome.0@), outcome.1) == finished(check),
    {
        self.phase = DefaultPhase::Over;
        (no_acts(), DefaultTodo::Finish(check))
    }

    fn fail_to_save(&mut self, first: Vec<Act>) -> (outcome: (Vec<Act>, DefaultTodo))
        ensures
            final(self).asked == old(self).asked,
            (final(self).phase, notes::acts_view(outcome.0@), outcome.1) == old(self).not_saved(
                notes::acts_view(first@),
            ),
    {
        self.phase = DefaultPhase::Over;
        let mut acts = first;
        if self.asked {
            push_act(
                &mut acts,
                Act::Print(complaint_of("failed to set default agent", false, true)),
            );
        }
        (acts, DefaultTodo::Finish(DefaultCheck::Cancelled))
    }

    fn find(&mut self, current: Option<String>) -> (outcome: (Vec<Act>, DefaultTodo))
        ensures
            final(self).asked == old(self).asked,
            (final(self).phase, notes::acts_view(outcome.0@), outcome.1) == quiet(
                DefaultPhase::Finding { current },
                DefaultTodo::FindInstalled,
            ),
    {
        self.phase = DefaultPhase::Finding { current };
        (no_acts(), DefaultTodo::FindInstalled)
    }

    fn without_default(&mut self) -> (outcome: (Vec<Act>, DefaultTodo))
        ensures
            final(self).asked == old(self).asked,
            (final(self).phase, notes::acts_view(outcome.0@), outcome.1) == old(self).no_default(),
    {
        if self.asked {
            self.find(None)
        } else {
            self.finish(DefaultCheck::Unknown)
        }
    }

    fn on_connected(&mut self) -> (outcome: (Vec<Act>, DefaultTodo))
        ensures
            final(self).asked == old(self).asked,
            (final(self).phase, notes::acts_view(outcome.0@), outcome.1) == old(self).next(
                DefaultEvent::Connected,
            ),
    {
        match &self.phase {
            DefaultPhase::Connecting => {
                self.phase = DefaultPhase::Sending;
                let acts = if self.asked {
                    one_act(Act::SpinOk(copy_of("connected")))
                } else {
                    no_acts()
                };
                (acts, DefaultTodo::Send(CliMessage::GetDefault))
            },
            DefaultPhase::SaveConnecting { binary } => {
                let (binary, sent) = (binary.clone(), binary.clone());
                self.phase = DefaultPhase::SaveSending { binary };
                (no_acts(), DefaultTodo::Send(CliMessage::SetDefault { agent_binary: sent }))
            },
            _ => (no_acts(), DefaultTodo::Nothing),
        }
    }

    fn on_connect_failed(&mut self, e: String) -> (outcome: (Vec<Act>, DefaultTodo))
        ensures
            final(self).asked == old(self).asked,
            (final(self).phase, notes::acts_view(outcome.0@), outcome.1) == old(self).next(
                DefaultEvent::ConnectFailed(e),
            ),
    {
        match &self.phase {
            DefaultPhase::Connecting => if self.asked {
                self.phase = DefaultPhase::Over;
                let text = joined("failed to connect to hub: ", e.as_str());
                (one_act(Act::SpinFailed(text)), DefaultTodo::Exit(1))
            } else {
                self.finish(DefaultCheck::Unknown)
            },
            DefaultPhase::SaveConnecting { .. } => self.fail_to_save(no_acts()),
            _ => (no_acts(), DefaultTodo::Nothing),
        }
    }

    fn on_send_failed(&mut self, e: String) -> (outcome: (Vec<Act>, DefaultTodo))
        ensures
            final(self).asked == old(self).asked,
            (final(self).phase, notes::acts_view(outcome.0@), outcome.1) == old(self).next(
                DefaultEvent::SendFailed(e),
            ),
    {
        match &self.phase {
            DefaultPhase::Sending => if self.asked {
                self.phase = DefaultPhase::Over;
                let text = joined("failed to get default: ", e.as_str());
                (
                    one_act(Act::Print(complaint_of(text.as_str(), false, false))),
                    DefaultTodo::Exit(1),
                )
            } else {
                self.finish(DefaultCheck::Unknown)
            },
            DefaultPhase::SaveSending { .. } => self.fail_to_save(no_acts()),
            _ => (no_acts(), DefaultTodo::Nothing),
        }
    }

    fn on_received(&mut self, message: HubMessage) -> (outcome: (Vec<Act>, DefaultTodo))
        ensures
            final(self).asked == old(self).asked,
            (final(self).phase, notes::acts_view(outcome.0@), outcome.1) == old(self).next(
                DefaultEvent::Received(message),
            ),
    {
        match &self.phase {
            DefaultPhase::Receiving => match message {
                HubMessage::DefaultAgent { agent_binary } => if self.asked {
                    self.find(agent_binary)
                } else {
                    match agent_binary {
                        Some(binary) => self.finish(DefaultCheck::Agent(binary)),
                        None => self.find(None),
                    }
                },
                _ => self.without_default(),
            },
            DefaultPhase::SaveReceiving { binary } => match message {
                HubMessage::Done => {
                    let binary = binary.clone();
                    self.phase = DefaultPhase::Over;
                    let text = joined("default agent set to ", binary.as_str());
                    (
                        one_act(Act::Print(success_of(text.as_str()))),
                        DefaultTodo::Finish(DefaultCheck::Agent(binary)),
                    )
                },
                HubMessage::Error { message } => {
                    let text = joined("failed to set default: ", message.as_str());
                    let asked = self.asked;
                    self.fail_to_save(
                        one_act(Act::Print(complaint_of(text.as_str(), false, asked))),
                    )
                },
                _ => self.fail_to_save(no_acts()),
            },
            _ => (no_acts(), DefaultTodo::Nothing),
        }
    }

    /// One step.
    pub fn step(&mut self, event: DefaultEvent) -> (outcome: (Vec<Act>, DefaultTodo))
        ensures
            final(self).asked == old(self).asked,
            (final(self).phase, notes::acts_view(outcome.0@), outcome.1) == old(self).next(event),
    {
        match event {
            DefaultEvent::Begin => {
                if let DefaultPhase::Ready = self.phase {
                    self.phase = DefaultPhase::Connecting;
                    let mut acts = no_acts();
                    if self.asked {
                        push_act(&mut acts, Act::Blank);
                        push_act(&mut acts, Act::Spin(copy_of("connecting to hub")));
                        assert(notes::acts_view(acts@) =~= seq![
                            notes::ActView::Blank,
                            notes::ActView::Spin("connecting to hub"@),
                        ]);
                    }
                    return (acts, DefaultTodo::Connect);
                }
            },
            DefaultEvent::Connected => {
                return self.on_connected();
            },
            DefaultEvent::ConnectFailed(e) => {
                return self.on_connect_failed(e);
            },
            DefaultEvent::Sent => {
                match &self.phase {
                    DefaultPhase::Sending => {
                        self.phase = DefaultPhase::Receiving;
                        return (no_acts(), DefaultTodo::Receive);
                    },
                    DefaultPhase::SaveSending { binary } => {
                        let binary = binary.clone();
                        self.phase = DefaultPhase::SaveReceiving { binary };
                        return (no_acts(), DefaultTodo::Receive);
                    },
                    _ => {},
                }
            },
            DefaultEvent::SendFailed(e) => {
                return self.on_send_failed(e);
            },
            DefaultEvent::Received(message) => {
                return self.on_received(message);
            },
            DefaultEvent::ReceiveFailed => {
                match &self.phase {
                    DefaultPhase::Receiving => {
                        return self.without_default();
                    },
                    DefaultPhase::SaveReceiving { .. } => {
                        return self.fail_to_save(no_acts());
                    },
                    _ => {},
                }
            },
            DefaultEvent::Installed(installed) => {
                if let DefaultPhase::Finding { current } = &self.phase {
                    let current = match current {
                        Some(c) => Some(c.clone()),
                        None => None,
                    };
                    // If exactly one agent is installed, auto-select it
                    if !self.asked && installed.len() == 1 {
                        let binary = installed[0].binary.clone();
                        self.phase = DefaultPhase::SaveConnecting { binary };
                        return (no_acts(), DefaultTodo::Connect);
                    }
                    self.phase = DefaultPhase::Picking;
                    let first_time = !self.asked;
                    return (no_acts(), DefaultTodo::Pick { installed, current, first_time });
                }
            },
            DefaultEvent::Picked(result) => {
                if let DefaultPhase::Picking = self.phase {
                    return match result {
                        DefaultPickerResult::Cancel => self.finish(DefaultCheck::Cancelled),
                        DefaultPickerResult::Selected(binary) => {
                            self.phase = DefaultPhase::SaveConnecting { binary };
                            (no_acts(), DefaultTodo::Connect)
                        },
                    };
                }
            },
        }
        (no_acts(), DefaultTodo::Nothing)
    }
}

/// What the list of agents is headed with.
pub open spec fn picker_header(first_time: bool) -> Seq<char> {
    if first_time {
        "pick a default agent to get started"@
    } else {
        "set default agent"@
    }
}

pub fn picker_heading(first_time: bool) -> (s: &'static str)
    ensures
        s@ == picker_header(first_time),
{
    if first_time {
        "pick a default agent to get started"
    } else {
        "set default agent"
    }
}

/// The agent that a start asks for: the one that the user named, else what is known of the
/// default. `None` where nothing is to be started.
pub fn agent_to_start(use_agent: Option<String>, check: DefaultCheck) -> (agent: Option<
    Option<String>,
>)
    ensures
        agent == (match (use_agent, check) {
            (Some(a), _) => Some(Some(a)),
            (None, DefaultCheck::Agent(a)) => Some(Some(a)),
            (None, DefaultCheck::Unknown) => Some(None),
            (None, DefaultCheck::Cancelled) => None,
        }),
{
    match use_agent {
        Some(a) => Some(Some(a)),
        None => match check {
            DefaultCheck::Agent(a) => Some(Some(a)),
            DefaultCheck::Unknown => Some(None),
            DefaultCheck::Cancelled => None,
        },
    }
}

// ── Laws ───────────────────────────────────────────────────────────

/// An agent is taken for the default only if the hub has said so or has confirmed it.
pub proof fn default_comes_from_the_hub(run: DefaultRun, event: DefaultEvent)
    ensures
        run.next(event).2 matches DefaultTodo::Finish(DefaultCheck::Agent(binary)) ==> {
            ||| run.phase == DefaultPhase::SaveReceiving { binary } && event
                == DefaultEvent::Received(HubMessage::Done)
            ||| run.phase == DefaultPhase::Receiving && event == DefaultEvent::Received(
                HubMessage::DefaultAgent { agent_binary: Some(binary) },
            )
        },
{
}

/// With a default in place nothing is asked of the user who only wants to start an agent.
pub proof fn existing_default_is_used(run: DefaultRun, binary: String)
    requires
        !run.asked,
        run.phase == DefaultPhase::Receiving,
    ensures
        run.next(
            DefaultEvent::Received(HubMessage::DefaultAgent { agent_binary: Some(binary) }),
        ).2 == DefaultTodo::Finish(DefaultCheck::Agent(binary)),
{
}

/// Once it is over, nothing more is shown or done.
pub proof fn finished_default_run_is_silent(run: DefaultRun, event: DefaultEvent)
    requires
        run.phase == DefaultPhase::Over,
    ensures
        run.next(event) == (run.phase, Seq::<notes::ActView>::empty(), DefaultTodo::Nothing),
{
}

/// The agent that the user chose is the one that the hub is told, and the one that is used once
/// the hub has taken it; a user who chose none has none.
pub proof fn chosen_agents_are_saved_and_used(asked: bool, binary: String)
    ensures
        ({
            let run = DefaultRun { asked, phase: DefaultPhase::Picking };
            &&& run.next(DefaultEvent::Picked(DefaultPickerResult::Selected(binary))).0 == (
            DefaultPhase::SaveConnecting { binary })
            &&& run.next(DefaultEvent::Picked(DefaultPickerResult::Cancel)).2
                == DefaultTodo::Finish(DefaultCheck::Cancelled)
        }),
        ({
            let run = DefaultRun { asked, phase: DefaultPhase::SaveConnecting { binary } };
            let (phase, acts, todo) = run.next(DefaultEvent::Connected);
            &&& phase == (DefaultPhase::SaveSending { binary })
            &&& todo == DefaultTodo::Send(CliMessage::SetDefault { agent_binary: binary })
        }),
        ({
            let run = DefaultRun { asked, phase: DefaultPhase::SaveSending { binary } };
            run.next(DefaultEvent::Sent).0 == (DefaultPhase::SaveReceiving { binary })
        }),
        ({
            let run = DefaultRun { asked, phase: DefaultPhase::SaveReceiving { binary } };
            run.next(DefaultEvent::Received(HubMessage::Done)).2 == DefaultTodo::Finish(
                DefaultCheck::Agent(binary),
            )
        }),
{
}

/// Whoever only wants to start an agent is asked nothing where a single agent is installed: it is
/// taken. Whoever asked to choose is always asked, and so is everyone with a choice; the agents to
/// choose from are those that were found, and the present default is known.
pub proof fn choices_are_offered(asked: bool, current: Option<String>, installed: Vec<KnownAgent>)
    ensures
        ({
            let run = DefaultRun { asked, phase: DefaultPhase::Finding { current } };
            let (phase, acts, todo) = run.next(DefaultEvent::Installed(installed));
            if !asked && installed@.len() == 1 {
                phase == (DefaultPhase::SaveConnecting { binary: installed@[0].binary })
            } else {
                &&& phase is Picking
                &&& todo is Pick && todo->Pick_installed == installed
                &&& todo->Pick_current == current
                &&& todo->Pick_first_time == !asked
            }
        }),
{
}

/// The hub is asked for the default first. Where it has one and the user asked to choose, the
/// choice begins with it.
pub proof fn hubs_are_asked_for_the_default(asked: bool, binary: Option<String>)
    ensures
        ({
            let run = DefaultRun { asked, phase: DefaultPhase::Connecting };
            run.next(DefaultEvent::Connected).2 == DefaultTodo::Send(CliMessage::GetDefault)
        }),
        ({
            let run = DefaultRun { asked, phase: DefaultPhase::Receiving };
            let said = HubMessage::DefaultAgent { agent_binary: binary };
            let (phase, acts, todo) = run.next(DefaultEvent::Received(said));
            asked || binary is None ==> phase == (DefaultPhase::Finding { current: binary })
                && todo is FindInstalled
        }),
{
}

/// Where nothing could be saved there is no default, and whoever asked is told so, with the
/// reason where the hub gave one.
pub proof fn failed_saves_are_told(asked: bool, binary: String, message: String)
    ensures
        ({
            let run = DefaultRun { asked, phase: DefaultPhase::SaveReceiving { binary } };
            let (phase, acts, todo) = run.next(
                DefaultEvent::Received(HubMessage::Error { message }),
            );
            let reason = acts[0]->Print_0.pieces[0].text;
            &&& phase is Over
            &&& todo == DefaultTodo::Finish(DefaultCheck::Cancelled)
            &&& acts.len() == (if asked {
                2int
            } else {
                1
            })
            &&& acts[0] is Print && acts[0]->Print_0.to_stderr
            &&& reason.skip(reason.len() - message@.len()) == message@
        }),
        ({
            let run = DefaultRun { asked, phase: DefaultPhase::SaveConnecting { binary } };
            let (phase, acts, todo) = run.next(DefaultEvent::ConnectFailed(message));
            &&& phase is Over
            &&& todo == DefaultTodo::Finish(DefaultCheck::Cancelled)
            &&& acts.len() == (if asked {
                1int
            } else {
                0
            })
        }),
{
    let reason = "failed to set default: "@ + message@;
    assert(reason.skip(reason.len() - message@.len()) =~= message@);
}

/// A hub that cannot be reached fails the command where the default was asked for, and leaves
/// the default unknown elsewhere.
pub proof fn unreachable_hubs_fail_where_asked(asked: bool, e: String)
    ensures
        ({
            let run = DefaultRun { asked, phase: DefaultPhase::Connecting };
            let (phase, acts, todo) = run.next(DefaultEvent::ConnectFailed(e));
            &&& phase is Over
            &&& asked ==> todo == DefaultTodo::Exit(1) && acts.len() == 1
            &&& !asked ==> todo == DefaultTodo::Finish(DefaultCheck::Unknown) && acts.len() == 0
        }),
        ({
            let run = DefaultRun { asked, phase: DefaultPhase::Sending };
            let (phase, acts, todo) = run.next(DefaultEvent::SendFailed(e));
            &&& phase is Over
            &&& asked ==> todo == DefaultTodo::Exit(1) && acts.len() == 1
            &&& !asked ==> todo == DefaultTodo::Finish(DefaultCheck::Unknown) && acts.len() == 0
        }),
{
}

/// Whoever picks a default for the first time is told so.
pub proof fn first_picks_are_told_so(first_time: bool)
    ensures
        picker_header(first_time)[0] == 'p' <==> first_time,
{
    reveal_strlit("pick a default agent to get started");
    reveal_strlit("set default agent");
}

} // verus!

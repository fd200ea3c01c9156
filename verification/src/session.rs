//! The course of a session: what the host does after each thing that happens.
//!
//! The program around the library performs an [`Action`] and reports an [`Event`];
//! a [`Session`] decides what comes next.

use crate::error::HostError;
use crate::message::{ClientMessage, ContentType};
use vstd::prelude::*;

verus! {

/// How a session ends.
#[derive(Clone, Copy, Debug, PartialEq, Eq, Structural)]
pub enum Outcome {
    /// The extension has closed the stream: all is well.
    Closed,
    /// The host ends the session with an error of its own.
    Refused(HostError),
    /// A step has failed, and its error ends the session.
    Failed,
}

/// What the host is doing.
#[derive(Clone, Copy, Debug, PartialEq, Eq, Structural)]
pub enum Phase {
    /// Reading the next message.
    Reading,
    /// Storing the first content in the file to edit.
    Storing(ContentType),
    /// Starting the editor.
    Starting(ContentType),
    /// Setting up the watch over the editor and the file.
    Supervising(ContentType),
    /// Nothing any more.
    Stopped(Outcome),
}

/// Something that has happened.
#[derive(Debug)]
pub enum Event {
    /// A message was read.
    Message(ClientMessage),
    /// No message could be read; either the stream ended, or something else is wrong.
    ReadFailed { unexpected_eof: bool },
    /// The editor was started, under a process id.
    EditorStarted(i32),
    /// The last action was done.
    Done,
    /// The last action has failed.
    Failed,
}

/// Something to do.
#[derive(Debug)]
pub enum Action {
    /// Read the next message.
    Read,
    /// Store a content in the file to edit.
    Store { content_type: ContentType, content: String },
    /// Start the editor on the file.
    StartEditor { content_type: ContentType },
    /// Watch the editor, for its end, and the file, for updates.
    Supervise { content_type: ContentType },
    /// End the session.
    Stop(Outcome),
}

/// What an event is.
pub enum EventView {
    Message { content_type: ContentType, content: Seq<char> },
    ReadFailed { unexpected_eof: bool },
    EditorStarted(i32),
    Done,
    Failed,
}

/// What an action is.
pub enum ActionView {
    Read,
    Store { content_type: ContentType, content: Seq<char> },
    StartEditor { content_type: ContentType },
    Supervise { content_type: ContentType },
    Stop(Outcome),
}

/// What a session has come to.
pub struct SessionState {
    pub phase: Phase,
    /// Whether a "begin" message has arrived.
    pub begun: bool,
    /// The process id of the editor, once it was started.
    pub editor: Option<i32>,
}

impl View for Event {
    type V = EventView;

    open spec fn view(&self) -> EventView {
        match self {
            Event::Message(ClientMessage::Begin { initial_content, content_type }) => {
                EventView::Message { content_type: *content_type, content: initial_content@ }
            },
            Event::ReadFailed { unexpected_eof } => EventView::ReadFailed {
                unexpected_eof: *unexpected_eof,
            },
            Event::EditorStarted(pid) => EventView::EditorStarted(*pid),
            Event::Done => EventView::Done,
            Event::Failed => EventView::Failed,
        }
    }
}

impl View for Action {
    type V = ActionView;

    open spec fn view(&self) -> ActionView {
        match self {
            Action::Read => ActionView::Read,
            Action::Store { content_type, content } => ActionView::Store {
                content_type: *content_type,
                content: content@,
            },
            Action::StartEditor { content_type } => ActionView::StartEditor {
                content_type: *content_type,
            },
            Action::Supervise { content_type } => ActionView::Supervise {
                content_type: *content_type,
            },
            Action::Stop(outcome) => ActionView::Stop(*outcome),
        }
    }
}

impl SessionState {
    /// A session that has just been opened.
    pub open spec fn opened() -> SessionState {
        SessionState { phase: Phase::Reading, begun: false, editor: None }
    }

    /// Whether an event can happen in what the host is doing.
    pub open spec fn accepts(self, event: EventView) -> bool {
        match self.phase {
            Phase::Reading => event is Message || event is ReadFailed,
            Phase::Storing(_) => event is Done || event is Failed,
            Phase::Starting(_) => event is EditorStarted || event is Failed,
            Phase::Supervising(_) => event is Done,
            Phase::Stopped(_) => false,
        }
    }

    /// What the host does after an event.
    pub open spec fn action_after(self, event: EventView) -> ActionView {
        match (self.phase, event) {
            (_, EventView::Message { content_type, content }) => if self.begun {
                ActionView::Stop(Outcome::Refused(HostError::BeginTwice))
            } else {
                ActionView::Store { content_type, content }
            },
            (_, EventView::ReadFailed { unexpected_eof: true }) => ActionView::Stop(
                Outcome::Closed,
            ),
            (Phase::Storing(content_type), EventView::Done) => ActionView::StartEditor {
                content_type,
            },
            (Phase::Starting(content_type), EventView::EditorStarted(_)) => ActionView::Supervise {
                content_type,
            },
            (_, EventView::Done) => ActionView::Read,
            _ => ActionView::Stop(Outcome::Failed),
        }
    }

    /// The session after an event: what it does is what it was told to do, a message
    /// begins it, and a started editor is remembered.
    pub open spec fn after(self, event: EventView) -> SessionState {
        SessionState {
            phase: match self.action_after(event) {
                ActionView::Read => Phase::Reading,
                ActionView::Store { content_type, .. } => Phase::Storing(content_type),
                ActionView::StartEditor { content_type } => Phase::Starting(content_type),
                ActionView::Supervise { content_type } => Phase::Supervising(content_type),
                ActionView::Stop(outcome) => Phase::Stopped(outcome),
            },
            begun: self.begun || event is Message,
            editor: match event {
                EventView::EditorStarted(pid) => Some(pid),
                _ => self.editor,
            },
        }
    }
}

/// A session.
#[derive(Debug)]
pub struct Session {
    phase: Phase,
    begun: bool,
    editor: Option<i32>,
}

impl View for Session {
    type V = SessionState;

    closed spec fn view(&self) -> SessionState {
        SessionState { phase: self.phase, begun: self.begun, editor: self.editor }
    }
}

impl Session {
    /// Opens a session; the first thing to do is to read a message.
    pub fn new() -> (session: Session)
        ensures
            session@ == SessionState::opened(),
    {
        Session { phase: Phase::Reading, begun: false, editor: None }
    }

    /// Takes in an event and decides what to do next.
    pub fn step(&mut self, event: Event) -> (action: Action)
        requires
            old(self)@.accepts(event@),
        ensures
            action@ == old(self)@.action_after(event@),
            final(self)@ == old(self)@.after(event@),
    {
        match (self.phase, event) {
            (_, Event::Message(ClientMessage::Begin { initial_content, content_type })) => {
                if self.begun {
                    self.stop(Outcome::Refused(HostError::BeginTwice))
                } else {
                    self.begun = true;
                    self.phase = Phase::Storing(content_type);
                    Action::Store { content_type, content: initial_content }
                }
            },
            (_, Event::ReadFailed { unexpected_eof: true }) => self.stop(Outcome::Closed),
            (Phase::Storing(content_type), Event::Done) => {
                self.phase = Phase::Starting(content_type);
                Action::StartEditor { content_type }
            },
            (Phase::Starting(content_type), Event::EditorStarted(pid)) => {
                self.editor = Some(pid);
                self.phase = Phase::Supervising(content_type);
                Action::Supervise { content_type }
            },
            (_, Event::Done) => {
                self.phase = Phase::Reading;
                Action::Read
            },
            _ => self.stop(Outcome::Failed),
        }
    }

    fn stop(&mut self, outcome: Outcome) -> (action: Action)
        ensures
            action == Action::Stop(outcome),
            final(self)@ == (SessionState { phase: Phase::Stopped(outcome), ..old(self)@ }),
    {
        self.phase = Phase::Stopped(outcome);
        Action::Stop(outcome)
    }

    /// The process id of the editor to terminate when the session ends.
    pub fn editor_to_kill(&self) -> (pid: Option<i32>)
        ensures
            pid == self@.editor,
    {
        self.editor
    }
}

/// The session after a number of events.
pub open spec fn after_all(events: Seq<EventView>) -> SessionState
    decreases events.len(),
{
    if events.len() == 0 {
        SessionState::opened()
    } else {
        after_all(events.drop_last()).after(events.last())
    }
}

/// The actions of a session in which a number of events happen.
pub open spec fn actions_in(events: Seq<EventView>) -> Seq<ActionView>
    decreases events.len(),
{
    if events.len() == 0 {
        seq![ActionView::Read]
    } else {
        let earlier = events.drop_last();
        actions_in(earlier).push(after_all(earlier).action_after(events.last()))
    }
}

/// Whether each of a number of events can happen in turn.
pub open spec fn can_happen(events: Seq<EventView>) -> bool
    decreases events.len(),
{
    events.len() > 0 ==> can_happen(events.drop_last()) && after_all(events.drop_last()).accepts(
        events.last(),
    )
}

/// How many of a number of actions start the editor.
pub open spec fn editors_started(actions: Seq<ActionView>) -> nat
    decreases actions.len(),
{
    if actions.len() == 0 {
        0
    } else {
        editors_started(actions.drop_last()) + (if actions.last() is StartEditor {
            1nat
        } else {
            0nat
        })
    }
}

/// How many of a number of actions store a content.
pub open spec fn contents_stored(actions: Seq<ActionView>) -> nat
    decreases actions.len(),
{
    if actions.len() == 0 {
        0
    } else {
        contents_stored(actions.drop_last()) + (if actions.last() is Store {
            1nat
        } else {
            0nat
        })
    }
}

proof fn lemma_counts(events: Seq<EventView>)
    requires
        can_happen(events),
    ensures
        contents_stored(actions_in(events)) == (if after_all(events).begun {
            1nat
        } else {
            0nat
        }),
        editors_started(actions_in(events)) <= contents_stored(actions_in(events)),
        after_all(events).phase is Storing ==> editors_started(actions_in(events)) == 0,
        after_all(events).phase is Storing || after_all(events).phase is Starting || after_all(
            events,
        ).phase is Supervising || after_all(events).editor is Some ==> after_all(events).begun,
        after_all(events).phase is Storing || after_all(events).phase is Starting ==> after_all(
            events,
        ).editor is None,
        after_all(events).editor is Some ==> editors_started(actions_in(events)) == 1,
        after_all(events).phase is Starting ==> editors_started(actions_in(events)) == 1,
        after_all(events).phase is Supervising ==> after_all(events).editor is Some,
        after_all(events).phase is Reading && after_all(events).begun ==> after_all(
            events,
        ).editor is Some,
    decreases events.len(),
{
    reveal_with_fuel(contents_stored, 2);
    reveal_with_fuel(editors_started, 2);
    if events.len() > 0 {
        let earlier = events.drop_last();
        lemma_counts(earlier);
        assert(actions_in(events).drop_last() =~= actions_in(earlier));
    } else {
        assert(actions_in(events).drop_last() =~= Seq::<ActionView>::empty());
    }
}

/// Law: a session stores at most one content and starts at most one editor, whatever
/// happens.
pub proof fn law_one_editor(events: Seq<EventView>)
    requires
        can_happen(events),
    ensures
        contents_stored(actions_in(events)) <= 1,
        editors_started(actions_in(events)) <= 1,
{
    lemma_counts(events);
}

/// Law: a second "begin" message is refused, by the end of the session, whatever
/// happened before.
pub proof fn law_second_begin_is_refused(
    events: Seq<EventView>,
    first: int,
    content_type: ContentType,
    content: Seq<char>,
)
    requires
        can_happen(events),
        0 <= first < events.len(),
        events[first] is Message,
        after_all(events).phase is Reading,
    ensures
        ({
            let state = after_all(events);
            let message = EventView::Message { content_type, content };
            let refused = Outcome::Refused(HostError::BeginTwice);
            &&& state.action_after(message) == ActionView::Stop(refused)
            &&& state.after(message).phase == Phase::Stopped(refused)
        }),
{
    lemma_message_begins(events, first);
}

proof fn lemma_message_begins(events: Seq<EventView>, first: int)
    requires
        0 <= first < events.len(),
        events[first] is Message,
    ensures
        after_all(events).begun,
    decreases events.len(),
{
    if first < events.len() - 1 {
        assert(events.drop_last()[first] == events[first]);
        lemma_message_begins(events.drop_last(), first);
    }
}

/// Law: no editor is left behind. Whenever a session ends, the editor to terminate is
/// the one that was started, and there is none if none was started.
pub proof fn law_no_editor_is_left_behind(events: Seq<EventView>)
    requires
        can_happen(events),
    ensures
        forall|pid: i32|
            after_all(events).editor == Some(pid) <==> #[trigger] events.contains(
                EventView::EditorStarted(pid),
            ),
    decreases events.len(),
{
    if events.len() > 0 {
        let earlier = events.drop_last();
        law_no_editor_is_left_behind(earlier);
        lemma_counts(earlier);
        assert(events =~= earlier.push(events.last()));
        assert forall|pid: i32|
            after_all(events).editor == Some(pid) <==> #[trigger] events.contains(
                EventView::EditorStarted(pid),
            ) by {
            let started = EventView::EditorStarted(pid);
            if events.contains(started) {
                let i = choose|i: int| 0 <= i < events.len() && events[i] == started;
                if i < earlier.len() {
                    assert(earlier[i] == started);
                    assert(earlier.contains(started));
                }
            }
            if earlier.contains(started) {
                let i = choose|i: int| 0 <= i < earlier.len() && earlier[i] == started;
                assert(events[i] == started);
            }
            if events.last() == started {
                assert(events[events.len() - 1] == started);
            }
        }
    }
}

/// Law: an editor is started on nothing but a stored content. Before the editor is
/// started, the content of the "begin" message was to be stored, and that was done.
pub proof fn law_editor_follows_store(events: Seq<EventView>)
    requires
        can_happen(events),
        events.len() > 0,
        actions_in(events).last() is StartEditor,
    ensures
        events.last() is Done,
        events.len() >= 2,
        events[events.len() - 2] matches EventView::Message { content_type, content } && actions_in(
            events,
        )[events.len() - 1] == (ActionView::Store { content_type, content }) && actions_in(
            events,
        )[events.len() as int] == (ActionView::StartEditor { content_type }),
{
    let before = events.drop_last();
    let action = after_all(before).action_after(events.last());
    assert(actions_in(events).last() == action);
    assert(after_all(before).phase is Storing);
    assert(before.len() > 0);
    let first = before.drop_last();
    lemma_action_count(events);
    lemma_action_count(before);
    lemma_action_count(first);
    assert(actions_in(events)[events.len() - 1] == actions_in(before).last());
    assert(before.last() == events[events.len() - 2]);
}

/// Law: the end of the stream ends a session well, and anything else that fails ends
/// it with that failure; an editor that was started stays the one to terminate.
pub proof fn law_failures_end_the_session(events: Seq<EventView>, event: EventView)
    requires
        can_happen(events),
        after_all(events).accepts(event),
        event is ReadFailed || event is Failed,
    ensures
        ({
            let state = after_all(events);
            let outcome = if event == (EventView::ReadFailed { unexpected_eof: true }) {
                Outcome::Closed
            } else {
                Outcome::Failed
            };
            &&& state.action_after(event) == ActionView::Stop(outcome)
            &&& state.after(event) == (SessionState { phase: Phase::Stopped(outcome), ..state })
            &&& forall|later: EventView| !#[trigger] state.after(event).accepts(later)
        }),
{
}

proof fn lemma_action_count(events: Seq<EventView>)
    ensures
        actions_in(events).len() == events.len() + 1,
    decreases events.len(),
{
    if events.len() > 0 {
        lemma_action_count(events.drop_last());
    }
}

/// Law: an event is seen as it is.
pub proof fn law_event_is_seen_as_it_is(
    initial_content: String,
    content_type: ContentType,
    unexpected_eof: bool,
    pid: i32,
)
    ensures
        Event::Message(ClientMessage::Begin { initial_content, content_type })@ == (
        EventView::Message { content_type, content: initial_content@ }),
        (Event::ReadFailed { unexpected_eof })@ == (EventView::ReadFailed { unexpected_eof }),
        Event::EditorStarted(pid)@ == EventView::EditorStarted(pid),
        Event::Done@ == EventView::Done,
        Event::Failed@ == EventView::Failed,
{
}

/// Law: an action is seen as it is.
pub proof fn law_action_is_seen_as_it_is(
    content: String,
    content_type: ContentType,
    outcome: Outcome,
)
    ensures
        Action::Read@ == ActionView::Read,
        (Action::Store { content_type, content })@ == (ActionView::Store {
            content_type,
            content: content@,
        }),
        (Action::StartEditor { content_type })@ == (ActionView::StartEditor { content_type }),
        (Action::Supervise { content_type })@ == (ActionView::Supervise { content_type }),
        Action::Stop(outcome)@ == ActionView::Stop(outcome),
{
}

/// What a session has come to after the first events of its course.
proof fn lemma_course(events: Seq<EventView>)
    requires
        can_happen(events),
    ensures
        events.len() <= 5,
        events.len() == 0 ==> after_all(events) == (SessionState {
            phase: Phase::Reading,
            begun: false,
            editor: None,
        }),
        events.len() == 1 ==> match events[0] {
            EventView::Message { content_type, .. } => after_all(events) == (SessionState {
                phase: Phase::Storing(content_type),
                begun: true,
                editor: None,
            }),
            EventView::ReadFailed { .. } => after_all(events).phase is Stopped && after_all(
                events,
            ).editor is None,
            _ => false,
        },
        events.len() >= 2 ==> events[0] is Message,
        events.len() == 2 ==> match events[1] {
            EventView::Done => after_all(events) == (SessionState {
                phase: Phase::Starting(events[0]->content_type),
                begun: true,
                editor: None,
            }),
            EventView::Failed => after_all(events).phase is Stopped && after_all(
                events,
            ).editor is None,
            _ => false,
        },
        events.len() >= 3 ==> events[1] is Done,
        events.len() == 3 ==> match events[2] {
            EventView::EditorStarted(pid) => after_all(events) == (SessionState {
                phase: Phase::Supervising(events[0]->content_type),
                begun: true,
                editor: Some(pid),
            }),
            EventView::Failed => after_all(events).phase is Stopped && after_all(
                events,
            ).editor is None,
            _ => false,
        },
        events.len() >= 4 ==> events[2] is EditorStarted && events[3] is Done,
        events.len() == 4 ==> after_all(events) == (SessionState {
            phase: Phase::Reading,
            begun: true,
            editor: Some(events[2]->EditorStarted_0),
        }),
        events.len() == 5 ==> (events[4] is Message || events[4] is ReadFailed) && after_all(
            events,
        ).phase is Stopped && after_all(events).editor == Some(events[2]->EditorStarted_0),
        actions_in(events).len() == events.len() + 1,
    decreases events.len(),
{
    if events.len() > 0 {
        let earlier = events.drop_last();
        lemma_course(earlier);
        assert(forall|i: int| 0 <= i < earlier.len() ==> #[trigger] earlier[i] == events[i]);
        if earlier.len() >= 1 {
            assert(earlier[0] == events[0]);
        }
        if earlier.len() >= 2 {
            assert(earlier[1] == events[1]);
        }
        if earlier.len() >= 3 {
            assert(earlier[2] == events[2]);
        }
        if earlier.len() >= 4 {
            assert(earlier[3] == events[3]);
        }
        assert(events.last() == events[events.len() - 1]);
    }
}

/// Law: this is the course of every session. It starts by reading. A "begin" message, read
/// first, has its content stored; once that is done, the editor is started in the content
/// type of the message; once it has started, the session is supervised in that content
/// type; and once that is set up, reading goes on. A further "begin" message is refused, the
/// end of the stream ends the session well, and whatever fails ends it with the failure.
/// The editor to terminate is the one that was started.
pub proof fn law_course_of_a_session(events: Seq<EventView>)
    requires
        can_happen(events),
    ensures
        ({
            let actions = actions_in(events);
            let n = events.len();
            &&& n <= 5
            &&& actions.len() == n + 1
            &&& actions[0] == ActionView::Read
            &&& n >= 1 ==> match events[0] {
                EventView::Message { content_type, content } => {
                    &&& actions[1] == (ActionView::Store { content_type, content })
                    &&& n >= 2 ==> (events[1] is Done || events[1] is Failed)
                    &&& n >= 2 && events[1] is Done ==> actions[2] == (ActionView::StartEditor {
                        content_type,
                    })
                    &&& n >= 3 ==> events[1] is Done && (events[2] is EditorStarted
                        || events[2] is Failed)
                    &&& n >= 3 && events[2] is EditorStarted ==> actions[3] == (
                    ActionView::Supervise { content_type })
                    &&& n >= 4 ==> events[2] is EditorStarted && events[3] is Done && actions[4]
                        == ActionView::Read
                    &&& n >= 5 ==> (events[4] is Message || events[4] is ReadFailed)
                    &&& n >= 5 && events[4] is Message ==> actions[5] == ActionView::Stop(
                        Outcome::Refused(HostError::BeginTwice),
                    )
                },
                EventView::ReadFailed { .. } => n == 1,
                _ => false,
            }
            &&& forall|i: int|
                0 <= i < n && #[trigger] events[i] == (EventView::ReadFailed {
                    unexpected_eof: true,
                }) ==> i == n - 1 && actions[i + 1] == ActionView::Stop(Outcome::Closed)
            &&& forall|i: int|
                0 <= i < n && (#[trigger] events[i] == (EventView::ReadFailed {
                    unexpected_eof: false,
                }) || events[i] == EventView::Failed) ==> i == n - 1 && actions[i + 1]
                    == ActionView::Stop(Outcome::Failed)
            &&& after_all(events).editor == (if n >= 3 && events[2] is EditorStarted {
                Some(events[2]->EditorStarted_0)
            } else {
                None
            })
        }),
    decreases events.len(),
{
    lemma_course(events);
    if events.len() > 0 {
        let earlier = events.drop_last();
        law_course_of_a_session(earlier);
        lemma_course(earlier);
        let actions = actions_in(events);
        assert(forall|i: int| 0 <= i < earlier.len() ==> #[trigger] earlier[i] == events[i]);
        assert(forall|i: int|
            0 <= i < actions_in(earlier).len() ==> #[trigger] actions_in(earlier)[i] == actions[i]);
        assert(actions[events.len() as int] == after_all(earlier).action_after(events.last()));
        if earlier.len() >= 1 {
            assert(earlier[0] == events[0] && actions_in(earlier)[1] == actions[1]);
        }
        if earlier.len() >= 2 {
            assert(earlier[1] == events[1] && actions_in(earlier)[2] == actions[2]);
        }
        if earlier.len() >= 3 {
            assert(earlier[2] == events[2] && actions_in(earlier)[3] == actions[3]);
        }
        if earlier.len() >= 4 {
            assert(earlier[3] == events[3] && actions_in(earlier)[4] == actions[4]);
        }
        assert(actions_in(earlier)[0] == actions[0]);
        assert(events.last() == events[events.len() - 1]);
        if earlier.len() > 0 {
            let last = earlier.last();
            assert(last == earlier[earlier.len() - 1]);
            assert(!(last is ReadFailed) && !(last is Failed));
        }
        assert forall|i: int| 0 <= i < events.len() && (#[trigger] events[i] is ReadFailed
            || events[i] is Failed) implies i == events.len() - 1 by {
            if i < earlier.len() {
                assert(earlier[i] == events[i]);
            }
        }
    }
}

/// Law: a session takes in whatever can happen at each point of its course: any message
/// and any failure to read where it reads, and success or failure of each step.
pub proof fn law_session_takes_what_may_come(
    content_type: ContentType,
    content: Seq<char>,
    pid: i32,
    unexpected_eof: bool,
    content_type2: ContentType,
    content2: Seq<char>,
)
    ensures
        ({
            let begin = EventView::Message { content_type, content };
            let started = EventView::EditorStarted(pid);
            let unread = EventView::ReadFailed { unexpected_eof };
            let again = EventView::Message { content_type: content_type2, content: content2 };
            &&& can_happen(seq![unread])
            &&& can_happen(seq![begin, EventView::Failed])
            &&& can_happen(seq![begin, EventView::Done, EventView::Failed])
            &&& can_happen(seq![begin, EventView::Done, started, EventView::Done, unread])
            &&& can_happen(seq![begin, EventView::Done, started, EventView::Done, again])
        }),
{
    let begin = EventView::Message { content_type, content };
    let started = EventView::EditorStarted(pid);
    let unread = EventView::ReadFailed { unexpected_eof };
    let again = EventView::Message { content_type: content_type2, content: content2 };
    let done = EventView::Done;
    let failed = EventView::Failed;
    let none = Seq::<EventView>::empty();
    assert(can_happen(none));
    lemma_course(none);
    assert(seq![unread].drop_last() =~= none);
    assert(can_happen(seq![unread]));
    assert(seq![begin].drop_last() =~= none);
    assert(can_happen(seq![begin]));
    lemma_course(seq![begin]);
    assert(seq![begin, failed].drop_last() =~= seq![begin]);
    assert(seq![begin, done].drop_last() =~= seq![begin]);
    assert(can_happen(seq![begin, done]));
    lemma_course(seq![begin, done]);
    assert(seq![begin, done, failed].drop_last() =~= seq![begin, done]);
    assert(seq![begin, done, started].drop_last() =~= seq![begin, done]);
    assert(can_happen(seq![begin, done, started]));
    lemma_course(seq![begin, done, started]);
    assert(seq![begin, done, started, done].drop_last() =~= seq![begin, done, started]);
    assert(can_happen(seq![begin, done, started, done]));
    lemma_course(seq![begin, done, started, done]);
    assert(seq![begin, done, started, done, unread].drop_last() =~= seq![
        begin,
        done,
        started,
        done,
    ]);
    assert(seq![begin, done, started, done, again].drop_last() =~= seq![
        begin,
        done,
        started,
        done,
    ]);
}

/// Law: in a session that goes well, the content of the "begin" message is stored, the
/// editor is started and the session is supervised, each in the content type of that
/// message, whichever it is; then the host reads on. The editor to terminate is the one
/// that was started, and before that there is none.
pub proof fn law_begin_leads_to_supervision(
    opened: Session,
    initial_content: String,
    content_type: ContentType,
    action1: Action,
    begun: Session,
    action2: Action,
    stored: Session,
    pid: i32,
    action3: Action,
    started: Session,
    action4: Action,
    supervised: Session,
)
    requires
        call_ensures(Session::new, (), opened),
        exists|s: &mut Session| #[trigger]
            call_ensures(Session::step, (s, Event::Message(ClientMessage::Begin { initial_content, content_type })), action1) && *s == opened && *final(s) == begun,
        exists|s: &mut Session| #[trigger]
            call_ensures(Session::step, (s, Event::Done), action2) && *s == begun && *final(s) == stored,
        exists|s: &mut Session| #[trigger]
            call_ensures(Session::step, (s, Event::EditorStarted(pid)), action3) && *s == stored && *final(s) == started,
        exists|s: &mut Session| #[trigger]
            call_ensures(Session::step, (s, Event::Done), action4) && *s == started && *final(s) == supervised,
    ensures
        action1 matches Action::Store { content_type: stored_type, content } && stored_type
            == content_type && content@ == initial_content@,
        action2 == (Action::StartEditor { content_type }),
        action3 == (Action::Supervise { content_type }),
        action4 == Action::Read,
        forall|killed: Option<i32>| #[trigger]
            call_ensures(Session::editor_to_kill, (&stored,), killed) ==> killed is None,
        forall|killed: Option<i32>| #[trigger]
            call_ensures(Session::editor_to_kill, (&started,), killed) ==> killed == Some(pid),
        forall|killed: Option<i32>| #[trigger]
            call_ensures(Session::editor_to_kill, (&supervised,), killed) ==> killed == Some(pid),
{
}

/// Law: where the host reads, the end of the stream ends the session well, and any other
/// failure to read ends it with that failure. The editor to terminate stays the same.
pub proof fn law_end_of_stream(
    reading: Session,
    unexpected_eof: bool,
    action: Action,
    ended: Session,
)
    requires
        reading@.phase == Phase::Reading,
        exists|s: &mut Session| #[trigger]
            call_ensures(Session::step, (s, Event::ReadFailed { unexpected_eof }), action) && *s == reading && *final(s) == ended,
    ensures
        action == Action::Stop(if unexpected_eof {
            Outcome::Closed
        } else {
            Outcome::Failed
        }),
        forall|killed: Option<i32>| #[trigger]
            call_ensures(Session::editor_to_kill, (&ended,), killed) ==> killed == reading@.editor,
{
}

/// Law: a step that fails ends the session with that failure, in whichever phase.
pub proof fn law_failed_step(working: Session, action: Action, ended: Session)
    requires
        exists|s: &mut Session| #[trigger]
            call_ensures(Session::step, (s, Event::Failed), action) && *s == working && *final(s) == ended,
    ensures
        action == Action::Stop(Outcome::Failed),
        ended@.editor == working@.editor,
{
}

/// Law: of two "begin" messages in one session the second is refused, whatever the two
/// hold.
pub proof fn law_begin_once(
    opened: Session,
    first: ClientMessage,
    action1: Action,
    begun: Session,
    reading: Session,
    second: ClientMessage,
    action2: Action,
    ended: Session,
)
    requires
        call_ensures(Session::new, (), opened),
        exists|s: &mut Session| #[trigger]
            call_ensures(Session::step, (s, Event::Message(first)), action1) && *s == opened && *final(s) == begun,
        reading@.begun == begun@.begun,
        exists|s: &mut Session| #[trigger]
            call_ensures(Session::step, (s, Event::Message(second)), action2) && *s == reading && *final(s) == ended,
    ensures
        action2 == Action::Stop(Outcome::Refused(HostError::BeginTwice)),
{
}

} // verus!

use vim_compose_host::error::HostError;
use vim_compose_host::html::{html_from_pandoc, pandoc_input};
use vim_compose_host::message::{ClientMessage, ContentType, HostMessage};
use vim_compose_host::session::{Action, Event, Outcome, Session};
use vim_compose_host::source::{plan_reading, plan_storing, source_file_name, Reading, Storing};
use vim_compose_host::update::Updates;

fn begin(content: &str, content_type: ContentType) -> Event {
    Event::Message(ClientMessage::Begin { initial_content: content.to_string(), content_type })
}

fn content(message: Option<HostMessage>) -> Option<String> {
    message.map(|m| match m {
        HostMessage::ReplaceAll { content } => content,
    })
}

#[test]
fn a_session_runs_its_course() {
    let mut session = Session::new();
    match session.step(begin("<p>hi</p>", ContentType::Html)) {
        Action::Store { content_type, content } => {
            assert_eq!(content_type, ContentType::Html);
            assert_eq!(content, "<p>hi</p>");
        }
        other => panic!("{:?}", other),
    }
    assert_eq!(session.editor_to_kill(), None);
    assert!(matches!(
        session.step(Event::Done),
        Action::StartEditor { content_type: ContentType::Html }
    ));
    assert!(matches!(
        session.step(Event::EditorStarted(42)),
        Action::Supervise { content_type: ContentType::Html }
    ));
    assert_eq!(session.editor_to_kill(), Some(42));
    assert!(matches!(session.step(Event::Done), Action::Read));
    assert!(matches!(
        session.step(Event::ReadFailed { unexpected_eof: true }),
        Action::Stop(Outcome::Closed)
    ));
    assert_eq!(session.editor_to_kill(), Some(42));
}

#[test]
fn a_second_begin_is_refused() {
    let mut session = Session::new();
    session.step(begin("a", ContentType::Plain));
    session.step(Event::Done);
    session.step(Event::EditorStarted(7));
    session.step(Event::Done);
    assert!(matches!(
        session.step(begin("b", ContentType::Plain)),
        Action::Stop(Outcome::Refused(HostError::BeginTwice))
    ));
    assert_eq!(session.editor_to_kill(), Some(7));
}

#[test]
fn an_early_end_of_the_stream_is_no_error() {
    let mut session = Session::new();
    assert!(matches!(
        session.step(Event::ReadFailed { unexpected_eof: true }),
        Action::Stop(Outcome::Closed)
    ));
    assert_eq!(session.editor_to_kill(), None);
}

#[test]
fn failures_end_the_session() {
    let mut reading = Session::new();
    assert!(matches!(
        reading.step(Event::ReadFailed { unexpected_eof: false }),
        Action::Stop(Outcome::Failed)
    ));
    let mut storing = Session::new();
    storing.step(begin("a", ContentType::Plain));
    assert!(matches!(storing.step(Event::Failed), Action::Stop(Outcome::Failed)));
    let mut starting = Session::new();
    starting.step(begin("a", ContentType::Plain));
    starting.step(Event::Done);
    assert!(matches!(starting.step(Event::Failed), Action::Stop(Outcome::Failed)));
    assert_eq!(starting.editor_to_kill(), None);
}

#[test]
fn files_are_named_by_content() {
    assert_eq!(source_file_name(ContentType::Html), "input.md");
    assert_eq!(source_file_name(ContentType::Plain), "input");
}

#[test]
fn updates_are_sent_on_change() {
    let mut updates = Updates::new();
    let seen = ["", "a", "a", "b", "a", "a"];
    let sent: Vec<Option<String>> =
        seen.iter().map(|text| content(updates.observe(text.to_string()))).collect();
    assert_eq!(
        sent,
        vec![
            Some("".to_string()),
            Some("a".to_string()),
            None,
            Some("b".to_string()),
            Some("a".to_string()),
            None,
        ]
    );
}

#[test]
fn markdown_updates_are_sanitised_and_sent_on_change() {
    let mut updates = Updates::new();
    let first = updates.observe_pandoc(b"<p>hi<script>alert(1)</script></p>\n").unwrap();
    assert_eq!(content(first), Some("<p>hi</p>\n".to_string()));
    let second = updates.observe_pandoc(b"<p onclick=\"x()\">hi</p>\n").unwrap();
    assert_eq!(content(second), None);
    let third = updates.observe_pandoc(b"<p>ho</p>\n").unwrap();
    assert_eq!(content(third), Some("<p>ho</p>\n".to_string()));
}

#[test]
fn html_is_sanitised_on_its_way_in() {
    assert_eq!(
        pandoc_input("<b onclick=\"x()\">bold</b><script>alert(1)</script><!-- no -->"),
        "<b>bold</b>"
    );
    assert_eq!(pandoc_input("plain"), "plain");
}

#[test]
fn html_is_sanitised_on_its_way_out() {
    assert_eq!(html_from_pandoc(b"<i>x</i><style>y</style>").unwrap(), "<i>x</i>");
    assert_eq!(html_from_pandoc(b"a\xffb").unwrap(), "a\u{fffd}b");
}

#[test]
fn plain_text_is_stored_and_read_as_it_is() {
    match plan_storing(ContentType::Plain, "a <b>\n") {
        Storing::Write { text } => assert_eq!(text, "a <b>\n"),
        other => panic!("{:?}", other),
    }
    assert!(matches!(plan_reading(ContentType::Plain), Reading::Whole));
}

#[test]
fn html_is_stored_and_read_through_pandoc() {
    match plan_storing(ContentType::Html, "<i>x</i><script>y</script>") {
        Storing::Convert { command, input } => {
            assert_eq!(command.program, "pandoc");
            assert_eq!(command.args.len(), 8);
            assert_eq!(input, "<i>x</i>");
        }
        other => panic!("{:?}", other),
    }
    match plan_reading(ContentType::Html) {
        Reading::Convert { command } => assert_eq!(command.program, "pandoc"),
        other => panic!("{:?}", other),
    }
}

#[test]
fn removed_markup_never_reaches_pandoc() {
    let inputs: Vec<String> = ["<i>x</i>", "<i onclick=\"y()\">x</i>", "<i>x</i><script>y</script>"]
        .iter()
        .map(|html| match plan_storing(ContentType::Html, html) {
            Storing::Convert { input, .. } => input,
            other => panic!("{:?}", other),
        })
        .collect();
    assert_eq!(inputs, vec!["<i>x</i>", "<i>x</i>", "<i>x</i>"]);
}

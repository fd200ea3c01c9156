//! The file that is edited: how a content gets into it, and how its text is read.

use crate::command::{html_to_markdown_command, markdown_to_html_command, CommandLine};
use crate::html::{pandoc_input, SANITIZE_LIMIT};
use crate::message::ContentType;
use vstd::prelude::*;

verus! {

/// How a content gets into the file to edit.
#[derive(Debug)]
pub enum Storing {
    /// The file is written with a text.
    Write { text: String },
    /// A command writes the file, from a text on its input.
    Convert { command: CommandLine, input: String },
}

/// How the text in the edited file is read.
#[derive(Debug)]
pub enum Reading {
    /// As it is.
    Whole,
    /// A command prints it.
    Convert { command: CommandLine },
}

/// What a way to store a content is.
pub enum StoringView {
    Write { text: Seq<char> },
    Convert { command: crate::command::CommandView, input: Seq<char> },
}

impl View for Storing {
    type V = StoringView;

    open spec fn view(&self) -> StoringView {
        match self {
            Storing::Write { text } => StoringView::Write { text: text@ },
            Storing::Convert { command, input } => StoringView::Convert {
                command: command@,
                input: input@,
            },
        }
    }
}

/// How a first content gets into the file to edit: plain text as it is, and HTML
/// sanitised and as Markdown.
pub open spec fn storing_of(content_type: ContentType, content: Seq<char>) -> StoringView {
    match content_type {
        ContentType::Plain => StoringView::Write { text: content },
        ContentType::Html => StoringView::Convert {
            command: crate::command::html_to_markdown_line(),
            input: crate::html::ammonia_clean(content),
        },
    }
}

/// The name of the file to edit.
pub fn source_file_name(content_type: ContentType) -> (name: &'static str)
    ensures
        name@ == (match content_type {
            ContentType::Html => "input.md"@,
            ContentType::Plain => "input"@,
        }),
{
    match content_type {
        ContentType::Html => "input.md",
        ContentType::Plain => "input",
    }
}

/// How a first content gets into the file to edit: plain text as it is, and HTML
/// sanitised and as Markdown.
pub fn plan_storing(content_type: ContentType, content: &str) -> (plan: Storing)
    requires
        content_type == ContentType::Html ==> vstd::utf8::encode_utf8(content@).len()
            <= SANITIZE_LIMIT,
    ensures
        plan@ == storing_of(content_type, content@),
        match content_type {
            ContentType::Plain => plan matches Storing::Write { text } && text@ == content@,
            ContentType::Html => plan matches Storing::Convert { command, input } && command@
                == crate::command::html_to_markdown_line() && input@
                == crate::html::ammonia_clean(content@),
        },
{
    match content_type {
        ContentType::Plain => Storing::Write { text: content.to_owned() },
        ContentType::Html => Storing::Convert {
            command: html_to_markdown_command(),
            input: pandoc_input(content),
        },
    }
}

/// How the text in the edited file is read: plain text as it is, and Markdown as HTML.
pub fn plan_reading(content_type: ContentType) -> (plan: Reading)
    ensures
        match content_type {
            ContentType::Plain => plan is Whole,
            ContentType::Html => plan matches Reading::Convert { command } && command@
                == crate::command::markdown_to_html_line(),
        },
{
    match content_type {
        ContentType::Plain => Reading::Whole,
        ContentType::Html => Reading::Convert { command: markdown_to_html_command() },
    }
}

/// Law: markup that the sanitiser removes never reaches pandoc. Where two HTML texts
/// are the same once sanitised, the same command is run for both, and it is given
/// exactly the sanitised text.
pub proof fn law_only_sanitised_html_is_stored(html1: Seq<char>, html2: Seq<char>, clean: Seq<char>)
    requires
        crate::html::ammonia_clean(html1) == clean,
        crate::html::ammonia_clean(html2) == clean,
    ensures
        storing_of(ContentType::Html, html1) == storing_of(ContentType::Html, html2),
        storing_of(ContentType::Html, html1) == (StoringView::Convert {
            command: crate::command::html_to_markdown_line(),
            input: clean,
        }),
{
}

/// Law: plain text is stored as it is, whatever it holds, and read as it is.
pub proof fn law_plain_text_is_left_alone(content: &str, storing: Storing, reading: Reading)
    requires
        call_ensures(plan_storing, (ContentType::Plain, content), storing),
        call_ensures(plan_reading, (ContentType::Plain,), reading),
    ensures
        storing matches Storing::Write { text } && text@ == content@,
        reading is Whole,
{
}

/// Law: HTML is stored through pandoc, which gets the sanitised HTML and writes the file as
/// Markdown, and is read through pandoc, which reads the file as Markdown.
pub proof fn law_html_goes_through_pandoc(content: &str, storing: Storing, reading: Reading)
    requires
        call_ensures(plan_storing, (ContentType::Html, content), storing),
        call_ensures(plan_reading, (ContentType::Html,), reading),
    ensures
        storing matches Storing::Convert { command, input } && input@
            == crate::html::ammonia_clean(content@) && command@ == (crate::command::CommandView {
            program: "pandoc"@,
            args: seq![
                crate::command::ArgView::Text("-"@),
                crate::command::ArgView::Text("--sandbox"@),
                crate::command::ArgView::Text("--output"@),
                crate::command::ArgView::File,
                crate::command::ArgView::Text("--from"@),
                crate::command::ArgView::Text("html"@),
                crate::command::ArgView::Text("--to"@),
                crate::command::ArgView::Text("gfm"@),
            ],
            stdin: crate::command::Stream::Piped,
            stdout: crate::command::Stream::Null,
            stderr: crate::command::Stream::Null,
        }),
        reading matches Reading::Convert { command } && command@ == (crate::command::CommandView {
            program: "pandoc"@,
            args: seq![
                crate::command::ArgView::File,
                crate::command::ArgView::Text("--sandbox"@),
                crate::command::ArgView::Text("--output"@),
                crate::command::ArgView::Text("-"@),
                crate::command::ArgView::Text("--from"@),
                crate::command::ArgView::Text("gfm"@),
                crate::command::ArgView::Text("--to"@),
                crate::command::ArgView::Text("html"@),
            ],
            stdin: crate::command::Stream::Null,
            stdout: crate::command::Stream::Piped,
            stderr: crate::command::Stream::Null,
        }),
{
}

/// Law: the file to edit has the same name whatever it holds; HTML is edited as Markdown,
/// and its file says so.
pub proof fn law_source_file_by_type(html: &'static str, plain: &'static str)
    requires
        call_ensures(source_file_name, (ContentType::Html,), html),
        call_ensures(source_file_name, (ContentType::Plain,), plain),
    ensures
        plain@ == "input"@,
        html@ == plain@ + ".md"@,
{
    reveal_strlit("input");
    reveal_strlit("input.md");
    reveal_strlit(".md");
    assert("input.md"@ =~= "input"@ + ".md"@);
}

} // verus!

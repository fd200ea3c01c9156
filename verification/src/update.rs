//! Updates: the extension is sent the text whenever it has changed.

use crate::html::{html_from_pandoc, SANITIZE_LIMIT};
use crate::message::HostMessage;
use vstd::prelude::*;

verus! {

/// What was last seen of the edited text.
#[derive(Debug)]
pub struct Updates {
    last: Option<String>,
}

impl View for Updates {
    type V = Option<Seq<char>>;

    closed spec fn view(&self) -> Option<Seq<char>> {
        match self.last {
            Some(text) => Some(text@),
            None => None,
        }
    }
}

/// The content of the message that is due when a text is seen, if there is one: the
/// text, unless it was the last one seen.
pub open spec fn update_due(last: Option<Seq<char>>, text: Seq<char>) -> Option<Seq<char>> {
    if last == Some(text) {
        None
    } else {
        Some(text)
    }
}

/// The content of a message, if there is one.
pub open spec fn content_of(message: Option<HostMessage>) -> Option<Seq<char>> {
    match message {
        Some(m) => Some(m.content_text()),
        None => None,
    }
}

impl Updates {
    /// Nothing was seen yet.
    pub fn new() -> (updates: Updates)
        ensures
            updates@ == None::<Seq<char>>,
    {
        Updates { last: None }
    }

    /// Takes in the text as it is now. Returns the message to send, if there is one.
    pub fn observe(&mut self, text: String) -> (message: Option<HostMessage>)
        ensures
            final(self)@ == Some(text@),
            content_of(message) == update_due(old(self)@, text@),
            message is None <==> old(self)@ == Some(text@),
            message matches Some(HostMessage::ReplaceAll { content }) ==> content@ == text@,
    {
        let same = match &self.last {
            Some(last) => *last == text,
            None => false,
        };
        if same {
            None
        } else {
            self.last = Some(text.clone());
            Some(HostMessage::ReplaceAll { content: text })
        }
    }

    /// Takes in what pandoc has printed for the text as it is now. Returns the message
    /// to send, if there is one.
    pub fn observe_pandoc(&mut self, output: &[u8]) -> (r: Result<
        Option<HostMessage>,
        std::io::Error,
    >)
        requires
            output@.len() <= SANITIZE_LIMIT,
        ensures
            r is Ok,
            final(self)@ == Some(crate::html::ammonia_clean_from_reader(output@)),
            content_of(r->Ok_0) == update_due(
                old(self)@,
                crate::html::ammonia_clean_from_reader(output@),
            ),
            r->Ok_0 is None <==> old(self)@ == Some(
                crate::html::ammonia_clean_from_reader(output@),
            ),
            r->Ok_0 matches Some(HostMessage::ReplaceAll { content }) ==> content@
                == crate::html::ammonia_clean_from_reader(output@),
    {
        match html_from_pandoc(output) {
            Ok(html) => Ok(self.observe(html)),
            Err(error) => Err(error),
        }
    }
}

/// What was last seen, after a number of texts.
pub open spec fn last_seen(texts: Seq<Seq<char>>) -> Option<Seq<char>> {
    if texts.len() == 0 {
        None
    } else {
        Some(texts.last())
    }
}

/// The contents of the messages that are due while a number of texts are seen.
pub open spec fn updates_due(texts: Seq<Seq<char>>) -> Seq<Seq<char>>
    decreases texts.len(),
{
    if texts.len() == 0 {
        Seq::empty()
    } else {
        let earlier = texts.drop_last();
        match update_due(last_seen(earlier), texts.last()) {
            Some(content) => updates_due(earlier).push(content),
            None => updates_due(earlier),
        }
    }
}

/// Law: the extension is up to date. Once a text was seen, the last message sent
/// carries the last text seen.
pub proof fn law_extension_is_up_to_date(texts: Seq<Seq<char>>)
    requires
        texts.len() > 0,
    ensures
        updates_due(texts).len() > 0,
        updates_due(texts).last() == texts.last(),
    decreases texts.len(),
{
    let earlier = texts.drop_last();
    if earlier.len() > 0 {
        law_extension_is_up_to_date(earlier);
    }
}

/// Law: nothing is sent twice in a row.
pub proof fn law_nothing_is_repeated(texts: Seq<Seq<char>>)
    ensures
        forall|i: int|
            0 < i < updates_due(texts).len() ==> #[trigger] updates_due(texts)[i] != updates_due(
                texts,
            )[i - 1],
    decreases texts.len(),
{
    if texts.len() > 0 {
        let earlier = texts.drop_last();
        law_nothing_is_repeated(earlier);
        if earlier.len() > 0 {
            law_extension_is_up_to_date(earlier);
        }
        let before = updates_due(earlier);
        assert forall|i: int| 0 < i < updates_due(texts).len() implies #[trigger] updates_due(
            texts,
        )[i] != updates_due(texts)[i - 1] by {
            if i < before.len() {
                assert(updates_due(texts)[i] == before[i]);
            }
        }
    }
}

/// Law: only what was seen is sent.
pub proof fn law_only_seen_texts_are_sent(texts: Seq<Seq<char>>)
    ensures
        forall|i: int|
            0 <= i < updates_due(texts).len() ==> texts.contains(#[trigger] updates_due(texts)[i]),
    decreases texts.len(),
{
    if texts.len() > 0 {
        let earlier = texts.drop_last();
        law_only_seen_texts_are_sent(earlier);
        assert forall|i: int| 0 <= i < updates_due(texts).len() implies texts.contains(
            #[trigger] updates_due(texts)[i],
        ) by {
            if i < updates_due(earlier).len() {
                assert(earlier.contains(updates_due(earlier)[i]));
                let j = choose|j: int| 0 <= j < earlier.len() && earlier[j] == updates_due(earlier)[i];
                assert(texts[j] == updates_due(texts)[i]);
            } else {
                assert(texts[texts.len() - 1] == updates_due(texts)[i]);
            }
        }
    }
}

/// The bytes of a session: a frame for each message, and the frame that ends it.
pub open spec fn session_bytes(
    order: crate::frame::Endianness,
    contents: Seq<Seq<char>>,
) -> Seq<u8>
    decreases contents.len(),
{
    if contents.len() == 0 {
        crate::frame::framed(order, Seq::empty())
    } else {
        crate::frame::framed(order, crate::message::message_payload(contents[0])) + session_bytes(
            order,
            contents.drop_first(),
        )
    }
}

/// Whether each of a number of contents can be sent.
pub open spec fn all_fit(contents: Seq<Seq<char>>) -> bool {
    forall|i: int|
        0 <= i < contents.len() ==> crate::frame::fits_frame(
            crate::message::message_payload(#[trigger] contents[i]),
        )
}

/// Law: the extension can read a session back. Two sessions with the same bytes have
/// sent the same contents in the same order.
pub proof fn law_session_is_read_back(
    order: crate::frame::Endianness,
    contents1: Seq<Seq<char>>,
    contents2: Seq<Seq<char>>,
)
    requires
        all_fit(contents1),
        all_fit(contents2),
        session_bytes(order, contents1) == session_bytes(order, contents2),
    ensures
        contents1 == contents2,
    decreases contents1.len(),
{
    let none = Seq::<u8>::empty();
    let (payload1, rest1) = if contents1.len() == 0 {
        (none, none)
    } else {
        (
            crate::message::message_payload(contents1[0]),
            session_bytes(order, contents1.drop_first()),
        )
    };
    let (payload2, rest2) = if contents2.len() == 0 {
        (none, none)
    } else {
        (
            crate::message::message_payload(contents2[0]),
            session_bytes(order, contents2.drop_first()),
        )
    };
    assert(crate::frame::framed(order, none) + none =~= crate::frame::framed(order, none));
    crate::frame::law_frames_delimit_themselves(order, payload1, rest1, payload2, rest2);
    if contents1.len() > 0 {
        crate::message::law_payload_is_not_empty(contents1[0]);
    }
    if contents2.len() > 0 {
        crate::message::law_payload_is_not_empty(contents2[0]);
    }
    if contents1.len() > 0 && contents2.len() > 0 {
        crate::message::law_payload_determines_content(contents1[0], contents2[0]);
        let tail1 = contents1.drop_first();
        let tail2 = contents2.drop_first();
        assert forall|i: int| 0 <= i < tail1.len() implies crate::frame::fits_frame(
            crate::message::message_payload(#[trigger] tail1[i]),
        ) by {
            assert(tail1[i] == contents1[i + 1]);
        }
        assert forall|i: int| 0 <= i < tail2.len() implies crate::frame::fits_frame(
            crate::message::message_payload(#[trigger] tail2[i]),
        ) by {
            assert(tail2[i] == contents2[i + 1]);
        }
        law_session_is_read_back(order, tail1, tail2);
        assert(contents1 =~= seq![contents1[0]] + tail1);
        assert(contents2 =~= seq![contents2[0]] + tail2);
    } else {
        assert(contents1 =~= contents2);
    }
}

/// Law: a message is due if and only if the text is not the last one seen, and it carries
/// the text, whatever that is.
pub proof fn law_message_is_due_on_change(last: Option<Seq<char>>, text: Seq<char>)
    ensures
        update_due(last, text) is None <==> last == Some(text),
        update_due(last, text) matches Some(content) ==> content == text,
{
}

/// Law: a message carries the content that was put into it.
pub proof fn law_message_carries_its_content(content: String)
    ensures
        content_of(Some(HostMessage::ReplaceAll { content })) == Some(content@),
        content_of(None) == None::<Seq<char>>,
{
}

/// Law: each text is sent when it is first seen and when it follows another text, and not
/// otherwise.
pub proof fn law_one_more_text(texts: Seq<Seq<char>>, text: Seq<char>)
    ensures
        updates_due(Seq::empty()) == Seq::<Seq<char>>::empty(),
        updates_due(texts.push(text)) == (if texts.len() > 0 && texts[texts.len() - 1] == text {
            updates_due(texts)
        } else {
            updates_due(texts).push(text)
        }),
{
    assert(texts.push(text).drop_last() =~= texts);
}

/// Law: the first text is always sent, even an empty one. Of two texts in a row, the second
/// is sent if and only if it is another text than the first. What is sent is the text.
pub proof fn law_two_texts_in_a_row(
    fresh: Updates,
    text1: String,
    message1: Option<HostMessage>,
    updates1: Updates,
    text2: String,
    message2: Option<HostMessage>,
    updates2: Updates,
)
    requires
        call_ensures(Updates::new, (), fresh),
        exists|s: &mut Updates| #[trigger]
            call_ensures(Updates::observe, (s, text1), message1) && *s == fresh && *final(s) == updates1,
        exists|s: &mut Updates| #[trigger]
            call_ensures(Updates::observe, (s, text2), message2) && *s == updates1 && *final(s) == updates2,
    ensures
        message1 matches Some(HostMessage::ReplaceAll { content }) && content@ == text1@,
        text1@ == text2@ ==> message2 is None,
        text1@ != text2@ ==> (message2 matches Some(HostMessage::ReplaceAll { content })
            && content@ == text2@),
{
}

/// Law: what was seen before the last text has no say in whether the next one is sent.
pub proof fn law_only_the_last_text_counts(
    updates: Updates,
    text1: String,
    message1: Option<HostMessage>,
    updates1: Updates,
    text2: String,
    message2: Option<HostMessage>,
    updates2: Updates,
)
    requires
        exists|s: &mut Updates| #[trigger]
            call_ensures(Updates::observe, (s, text1), message1) && *s == updates && *final(s) == updates1,
        exists|s: &mut Updates| #[trigger]
            call_ensures(Updates::observe, (s, text2), message2) && *s == updates1 && *final(s) == updates2,
    ensures
        message2 is None <==> text1@ == text2@,
{
}

} // verus!

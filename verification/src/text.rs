//! Small operations on text.

use vstd::prelude::*;

verus! {

/// `String::push` of std: appends one character.
pub assume_specification[ String::push ](s: &mut String, c: char)
    ensures
        final(s)@ == old(s)@.push(c),
;

/// A character with a backslash before it if it is a double quote.
pub open spec fn quote_escaped(c: char) -> Seq<char> {
    if c == '"' {
        seq!['\\', '"']
    } else {
        seq![c]
    }
}

/// A text with a backslash before each double quote.
pub open spec fn quotes_escaped(text: Seq<char>) -> Seq<char>
    decreases text.len(),
{
    if text.len() == 0 {
        Seq::empty()
    } else {
        quotes_escaped(text.drop_last()) + quote_escaped(text.last())
    }
}

/// Whether one text occurs in another.
pub open spec fn occurs_in(part: Seq<char>, text: Seq<char>) -> bool {
    exists|before: Seq<char>, after: Seq<char>| text == #[trigger] (before + part + after)
}

/// Puts a backslash before each double quote.
pub fn escape_quotes(text: &str) -> (escaped: String)
    ensures
        escaped@ == quotes_escaped(text@),
{
    let mut escaped = String::new();
    for c in it: text.chars()
        invariant
            it.seq() == text@,
            escaped@ == quotes_escaped(text@.take(it.index())),
    {
        proof {
            let done = text@.take(it.index() + 1);
            assert(done.drop_last() =~= text@.take(it.index()));
        }
        if c == '"' {
            escaped.push('\\');
        }
        escaped.push(c);
        proof {
            assert(escaped@ =~= quotes_escaped(text@.take(it.index() + 1)));
        }
    }
    proof {
        assert(text@.take(text@.len() as int) =~= text@);
    }
    escaped
}

/// The characters of a text.
pub(crate) fn chars_of(text: &str) -> (chars: Vec<char>)
    ensures
        chars@ == text@,
{
    let mut chars: Vec<char> = Vec::new();
    for c in it: text.chars()
        invariant
            it.seq() == text@,
            chars@ == text@.take(it.index()),
    {
        chars.push(c);
        proof {
            assert(chars@ =~= text@.take(it.index() + 1));
        }
    }
    proof {
        assert(text@.take(text@.len() as int) =~= text@);
    }
    chars
}

/// Whether two texts are the same.
pub(crate) fn same_text(a: &str, b: &str) -> (same: bool)
    ensures
        same == (a@ == b@),
{
    a.to_owned() == b.to_owned()
}

/// Law: escaping works piece by piece.
pub proof fn law_escape_joins(a: Seq<char>, b: Seq<char>)
    ensures
        quotes_escaped(a + b) == quotes_escaped(a) + quotes_escaped(b),
    decreases b.len(),
{
    if b.len() == 0 {
        assert(a + b =~= a);
        assert(quotes_escaped(a) + quotes_escaped(b) =~= quotes_escaped(a));
    } else {
        law_escape_joins(a, b.drop_last());
        assert((a + b).drop_last() =~= a + b.drop_last());
        assert(quotes_escaped(a + b) =~= quotes_escaped(a) + quotes_escaped(b));
    }
}

/// Law: in an escaped text a backslash stands before each double quote.
pub proof fn law_no_bare_quote(text: Seq<char>)
    ensures
        forall|i: int|
            0 <= i < quotes_escaped(text).len() && #[trigger] quotes_escaped(text)[i] == '"' ==> 0
                < i && quotes_escaped(text)[i - 1] == '\\',
    decreases text.len(),
{
    if text.len() > 0 {
        law_no_bare_quote(text.drop_last());
        let head = quotes_escaped(text.drop_last());
        assert forall|i: int|
            0 <= i < quotes_escaped(text).len() && #[trigger] quotes_escaped(text)[i]
                == '"' implies 0 < i && quotes_escaped(text)[i - 1] == '\\' by {
            if i < head.len() {
                assert(quotes_escaped(text)[i] == head[i]);
            }
        }
    }
}

/// Law: a text without double quotes is its own escape.
pub proof fn law_escape_without_quotes(text: Seq<char>)
    requires
        !text.contains('"'),
    ensures
        quotes_escaped(text) == text,
    decreases text.len(),
{
    if text.len() > 0 {
        let head = text.drop_last();
        assert(text[text.len() - 1] != '"');
        assert forall|i: int| 0 <= i < head.len() implies head[i] != '"' by {
            assert(head[i] == text[i]);
        }
        law_escape_without_quotes(head);
        assert(quotes_escaped(text) =~= text);
    } else {
        assert(quotes_escaped(text) =~= text);
    }
}

/// Law: escaping loses nothing. Two texts with the same escape are the same.
pub proof fn law_escape_loses_nothing(a: Seq<char>, b: Seq<char>)
    requires
        quotes_escaped(a) == quotes_escaped(b),
    ensures
        a == b,
    decreases a.len(),
{
    if a.len() == 0 || b.len() == 0 {
        if a.len() > 0 {
            assert(quotes_escaped(a).len() > 0);
        }
        if b.len() > 0 {
            assert(quotes_escaped(b).len() > 0);
        }
        assert(a =~= b);
    } else {
        let whole = quotes_escaped(a);
        assert(whole.last() == a.last());
        assert(quotes_escaped(b).last() == b.last());
        let n = whole.len() - quote_escaped(a.last()).len();
        assert(quotes_escaped(a.drop_last()) =~= whole.take(n));
        assert(quotes_escaped(b.drop_last()) =~= whole.take(n));
        law_escape_loses_nothing(a.drop_last(), b.drop_last());
        assert(a =~= a.drop_last().push(a.last()));
        assert(b =~= b.drop_last().push(b.last()));
    }
}

/// Law: a double quote is escaped by one backslash. With [`law_escape_joins`] and
/// [`law_escape_without_quotes`] this says what the escape of every text is.
pub proof fn law_one_backslash_per_quote()
    ensures
        quotes_escaped(seq!['"']) == seq!['\\', '"'],
{
    reveal_with_fuel(quotes_escaped, 2);
    assert(seq!['"'].drop_last() =~= Seq::<char>::empty());
    assert(quotes_escaped(seq!['"']) =~= seq!['\\', '"']);
}

/// Law: a call escapes a text piece by piece, whatever the pieces are: what stands before
/// a double quote, the quote, and what stands after it.
pub proof fn law_call_escapes_each_quote(
    text: &str,
    escaped: String,
    before: Seq<char>,
    after: Seq<char>,
)
    requires
        call_ensures(escape_quotes, (text,), escaped),
        text@ == before + seq!['"'] + after,
        !before.contains('"'),
    ensures
        escaped@ == before + seq!['\\', '"'] + quotes_escaped(after),
{
    law_escape_joins(before + seq!['"'], after);
    law_escape_joins(before, seq!['"']);
    law_one_backslash_per_quote();
    law_escape_without_quotes(before);
}

} // verus!

//! The process id of the editor: waiting for the file that holds it, and reading
//! the number in it.

use crate::command::Terminal;
use crate::error::{HostError, PidParseError};
use crate::text::chars_of;
use vstd::prelude::*;

verus! {

/// Whether a character has the Unicode property `White_Space`.
pub open spec fn white_space(c: char) -> bool {
    let n = c as int;
    ||| 0x09 <= n <= 0x0d
    ||| n == 0x20
    ||| n == 0x85
    ||| n == 0xa0
    ||| n == 0x1680
    ||| 0x2000 <= n <= 0x200a
    ||| n == 0x2028
    ||| n == 0x2029
    ||| n == 0x202f
    ||| n == 0x205f
    ||| n == 0x3000
}

/// A text without the white space at its start.
pub open spec fn start_trimmed(text: Seq<char>) -> Seq<char>
    decreases text.len(),
{
    if text.len() > 0 && white_space(text[0]) {
        start_trimmed(text.drop_first())
    } else {
        text
    }
}

/// A text without the white space at its end.
pub open spec fn end_trimmed(text: Seq<char>) -> Seq<char>
    decreases text.len(),
{
    if text.len() > 0 && white_space(text.last()) {
        end_trimmed(text.drop_last())
    } else {
        text
    }
}

/// A text without the white space around it.
pub open spec fn trimmed(text: Seq<char>) -> Seq<char> {
    end_trimmed(start_trimmed(text))
}

/// Whether a character is a decimal digit.
pub open spec fn decimal_digit(c: char) -> bool {
    '0' <= c <= '9'
}

/// The digits that a text starts with.
pub open spec fn leading_digits(text: Seq<char>) -> Seq<char>
    decreases text.len(),
{
    if text.len() > 0 && decimal_digit(text[0]) {
        seq![text[0]] + leading_digits(text.drop_first())
    } else {
        Seq::empty()
    }
}

/// The number that decimal digits stand for.
pub open spec fn decimal_value(digits: Seq<char>) -> int
    decreases digits.len(),
{
    if digits.len() == 0 {
        0
    } else {
        10 * decimal_value(digits.drop_last()) + (digits.last() as int - '0' as int)
    }
}

/// Whether a text starts with a sign.
pub open spec fn starts_with_sign(text: Seq<char>) -> bool {
    text.len() > 0 && (text[0] == '+' || text[0] == '-')
}

/// The number that a text stands for: a sign or none, and at least one digit. The
/// digits are read up to the first other character, and the number that they make
/// is held against the range of `i32` before that character is refused.
pub open spec fn integer_in(text: Seq<char>) -> Result<int, PidParseError> {
    let digits = if starts_with_sign(text) {
        text.drop_first()
    } else {
        text
    };
    let negative = text.len() > 0 && text[0] == '-';
    let value = decimal_value(leading_digits(digits));
    if text.len() == 0 {
        Err(PidParseError::Empty)
    } else if !negative && value > i32::MAX {
        Err(PidParseError::TooLarge)
    } else if negative && -value < i32::MIN {
        Err(PidParseError::TooSmall)
    } else if digits.len() == 0 || leading_digits(digits) != digits {
        Err(PidParseError::InvalidDigit)
    } else if negative {
        Ok(-value)
    } else {
        Ok(value)
    }
}

/// The digits of a number.
pub open spec fn decimal_text(n: nat) -> Seq<char>
    decreases n,
{
    let last = (n % 10 + '0' as int) as char;
    if n < 10 {
        seq![last]
    } else {
        decimal_text(n / 10).push(last)
    }
}

/// A number as a shell prints it.
pub open spec fn integer_text(n: int) -> Seq<char> {
    if n < 0 {
        seq!['-'] + decimal_text((-n) as nat)
    } else {
        decimal_text(n as nat)
    }
}

fn is_white_space(c: char) -> (b: bool)
    ensures
        b == white_space(c),
{
    let n: u32 = c as u32;
    (0x09 <= n && n <= 0x0d) || n == 0x20 || n == 0x85 || n == 0xa0 || n == 0x1680 || (0x2000 <= n
        && n <= 0x200a) || n == 0x2028 || n == 0x2029 || n == 0x202f || n == 0x205f || n == 0x3000
}

fn is_decimal_digit(c: char) -> (b: bool)
    ensures
        b == decimal_digit(c),
{
    '0' <= c && c <= '9'
}

/// Where the text without the white space around it starts and ends.
fn trim_bounds(chars: &Vec<char>) -> (r: (usize, usize))
    ensures
        r.0 <= r.1 <= chars@.len(),
        chars@.subrange(r.0 as int, r.1 as int) == trimmed(chars@),
{
    let mut start: usize = 0;
    proof {
        assert(chars@.skip(0) =~= chars@);
    }
    while start < chars.len() && is_white_space(chars[start])
        invariant
            start <= chars@.len(),
            start_trimmed(chars@) == start_trimmed(chars@.skip(start as int)),
        decreases chars@.len() - start,
    {
        proof {
            assert(chars@.skip(start as int).drop_first() =~= chars@.skip(start + 1));
        }
        start += 1;
    }
    let mut end: usize = chars.len();
    proof {
        assert(start_trimmed(chars@) == chars@.skip(start as int));
        assert(chars@.subrange(start as int, end as int) =~= chars@.skip(start as int));
    }
    while start < end && is_white_space(chars[end - 1])
        invariant
            start <= end <= chars@.len(),
            trimmed(chars@) == end_trimmed(chars@.subrange(start as int, end as int)),
        decreases end,
    {
        proof {
            assert(chars@.subrange(start as int, end as int).drop_last() =~= chars@.subrange(
                start as int,
                end - 1,
            ));
        }
        end -= 1;
    }
    (start, end)
}

proof fn lemma_leading_digits_extend(text: Seq<char>, n: int)
    requires
        0 <= n <= text.len(),
        forall|i: int| 0 <= i < n ==> decimal_digit(#[trigger] text[i]),
    ensures
        leading_digits(text) == text.take(n) + leading_digits(text.skip(n)),
    decreases n,
{
    if n == 0 {
        assert(text.skip(0) =~= text);
        assert(text.take(0) + leading_digits(text) =~= leading_digits(text));
    } else {
        let rest = text.drop_first();
        assert forall|i: int| 0 <= i < n - 1 implies decimal_digit(#[trigger] rest[i]) by {
            assert(rest[i] == text[i + 1]);
        }
        assert(decimal_digit(text[0]));
        lemma_leading_digits_extend(rest, n - 1);
        assert(rest.skip(n - 1) =~= text.skip(n));
        assert(seq![text[0]] + rest.take(n - 1) =~= text.take(n));
        assert(leading_digits(text) =~= text.take(n) + leading_digits(text.skip(n)));
    }
}

proof fn lemma_leading_digits_are_digits(text: Seq<char>)
    ensures
        forall|i: int|
            0 <= i < leading_digits(text).len() ==> decimal_digit(
                #[trigger] leading_digits(text)[i],
            ),
    decreases text.len(),
{
    if text.len() > 0 && decimal_digit(text[0]) {
        lemma_leading_digits_are_digits(text.drop_first());
        assert forall|i: int| 0 <= i < leading_digits(text).len() implies decimal_digit(
            #[trigger] leading_digits(text)[i],
        ) by {
            if i > 0 {
                assert(leading_digits(text)[i] == leading_digits(text.drop_first())[i - 1]);
            }
        }
    }
}

proof fn lemma_more_digits_more_value(a: Seq<char>, b: Seq<char>)
    requires
        forall|i: int| 0 <= i < a.len() ==> decimal_digit(#[trigger] a[i]),
        forall|i: int| 0 <= i < b.len() ==> decimal_digit(#[trigger] b[i]),
    ensures
        0 <= decimal_value(a) <= decimal_value(a + b),
    decreases a.len() + b.len(),
{
    if b.len() > 0 {
        let shorter = b.drop_last();
        lemma_more_digits_more_value(a, shorter);
        assert((a + b).drop_last() =~= a + shorter);
        assert(decimal_digit(b[b.len() - 1]));
    } else {
        assert(a + b =~= a);
        if a.len() > 0 {
            lemma_more_digits_more_value(a.drop_last(), b);
            assert(a.drop_last() + b =~= a.drop_last());
            assert(decimal_digit(a[a.len() - 1]));
        }
    }
}

/// The number in `chars` from `start` to `end`.
fn parse_range(chars: &Vec<char>, start: usize, end: usize) -> (r: Result<i32, PidParseError>)
    requires
        start <= end <= chars@.len(),
    ensures
        match integer_in(chars@.subrange(start as int, end as int)) {
            Ok(n) => r matches Ok(v) && v == n,
            Err(e) => r == Err::<i32, PidParseError>(e),
        },
{
    let ghost text = chars@.subrange(start as int, end as int);
    if start == end {
        return Err(PidParseError::Empty);
    }
    let negative = chars[start] == '-';
    let first: usize = if negative || chars[start] == '+' {
        start + 1
    } else {
        start
    };
    let limit: i64 = if negative {
        0x8000_0000
    } else {
        0x7fff_ffff
    };
    let ghost digits = if starts_with_sign(text) {
        text.drop_first()
    } else {
        text
    };
    assert(digits =~= chars@.subrange(first as int, end as int));
    if first == end {
        assert(leading_digits(digits) =~= Seq::<char>::empty());
        return Err(PidParseError::InvalidDigit);
    }
    let mut value: i64 = 0;
    let mut i: usize = first;
    assert(digits.take(0) =~= Seq::<char>::empty());
    while i < end && is_decimal_digit(chars[i])
        invariant
            start < end <= chars@.len(),
            first <= i <= end,
            digits == chars@.subrange(first as int, end as int),
            forall|j: int| 0 <= j < i - first ==> decimal_digit(#[trigger] digits[j]),
            value == decimal_value(digits.take(i - first)),
            0 <= value <= limit,
            limit == 0x8000_0000 || limit == 0x7fff_ffff,
            negative == (limit == 0x8000_0000),
            text.len() > 0,
            negative == (text[0] == '-'),
            text == chars@.subrange(start as int, end as int),
            digits == (if starts_with_sign(text) {
                text.drop_first()
            } else {
                text
            }),
        decreases end - i,
    {
        let digit: i64 = (chars[i] as u32 - '0' as u32) as i64;
        proof {
            let n = i - first;
            assert(digits[n] == chars@[i as int]);
            assert(digits.take(n + 1).drop_last() =~= digits.take(n));
            assert(digits.take(n + 1).last() == digits[n]);
        }
        value = value * 10 + digit;
        i += 1;
        if value > limit {
            proof {
                let n = i - first;
                lemma_leading_digits_extend(digits, n);
                lemma_leading_digits_are_digits(digits.skip(n));
                lemma_more_digits_more_value(digits.take(n), leading_digits(digits.skip(n)));
            }
            return Err(
                if negative {
                    PidParseError::TooSmall
                } else {
                    PidParseError::TooLarge
                },
            );
        }
    }
    proof {
        let n = i - first;
        lemma_leading_digits_extend(digits, n);
        assert(digits.len() == end - first);
        if i < end {
            assert(digits.skip(n)[0] == chars@[i as int]);
            assert(leading_digits(digits.skip(n)) =~= Seq::<char>::empty());
        } else {
            assert(digits.skip(n).len() == 0);
            assert(leading_digits(digits.skip(n)) =~= Seq::<char>::empty());
            assert(digits.take(n) =~= digits);
        }
        assert(leading_digits(digits) =~= digits.take(n));
        if i < end {
            assert(leading_digits(digits).len() < digits.len());
        }
    }
    if i < end {
        return Err(PidParseError::InvalidDigit);
    }
    Ok(
        if negative {
            (0 - value) as i32
        } else {
            value as i32
        },
    )
}

/// Reads a process id: a number with white space around it.
pub fn parse_pid(text: &str) -> (r: Result<i32, PidParseError>)
    ensures
        match integer_in(trimmed(text@)) {
            Ok(n) => r matches Ok(v) && v == n,
            Err(e) => r == Err::<i32, PidParseError>(e),
        },
{
    let chars = chars_of(text);
    let (start, end) = trim_bounds(&chars);
    parse_range(&chars, start, end)
}

/// How many milliseconds to sleep when the file is not there yet.
pub open spec fn poll_interval(terminal: Terminal) -> u64 {
    match terminal {
        Terminal::Gnome => 5,
        Terminal::Alacritty => 5,
        Terminal::Iterm2 => 50,
    }
}

/// How many times the file may be missing before the wait is given up, if there is
/// such a limit.
pub open spec fn miss_limit(terminal: Terminal) -> Option<nat> {
    match terminal {
        Terminal::Gnome => None,
        Terminal::Alacritty => None,
        Terminal::Iterm2 => Some(100),
    }
}

/// What a wait has come to.
pub struct WaitState {
    pub terminal: Terminal,
    /// How many times the file was missing, where that is limited.
    pub misses: nat,
    /// What the file held when it was last there.
    pub text: Seq<char>,
}

impl WaitState {
    /// A wait that has just begun.
    pub open spec fn begun(terminal: Terminal) -> WaitState {
        WaitState { terminal, misses: 0, text: Seq::empty() }
    }

    /// Whether to look for the file once more: so far it held nothing, and it was
    /// not missing too often.
    pub open spec fn waiting(self) -> bool {
        &&& self.text.len() == 0
        &&& miss_limit(self.terminal) matches Some(limit) ==> self.misses < limit
    }

    /// The wait after one more look: the file was missing, or held a text.
    pub open spec fn after(self, seen: Option<Seq<char>>) -> WaitState {
        match seen {
            Some(text) => WaitState { text, ..self },
            None => if miss_limit(self.terminal) is Some {
                WaitState { misses: self.misses + 1, ..self }
            } else {
                self
            },
        }
    }

    /// The wait after a number of looks.
    pub open spec fn after_all(self, seen: Seq<Option<Seq<char>>>) -> WaitState
        decreases seen.len(),
    {
        if seen.len() == 0 {
            self
        } else {
            self.after_all(seen.drop_last()).after(seen.last())
        }
    }

    /// What a wait that is over gives.
    pub open spec fn outcome(self) -> Result<int, HostError> {
        if self.text.len() == 0 {
            Err(HostError::PidTimeout)
        } else {
            match integer_in(trimmed(self.text)) {
                Ok(n) => Ok(n),
                Err(e) => Err(HostError::PidInvalid(e)),
            }
        }
    }
}

/// A wait for the file in which a terminal leaves the process id of the editor.
#[derive(Debug)]
pub struct PidWait {
    terminal: Terminal,
    misses: u32,
    text: String,
}

impl View for PidWait {
    type V = WaitState;

    closed spec fn view(&self) -> WaitState {
        WaitState { terminal: self.terminal, misses: self.misses as nat, text: self.text@ }
    }
}

impl PidWait {
    /// Begins to wait.
    pub fn new(terminal: Terminal) -> (wait: PidWait)
        ensures
            wait@ == WaitState::begun(terminal),
    {
        PidWait { terminal, misses: 0, text: String::new() }
    }

    /// Whether to look for the file once more.
    pub fn is_waiting(&self) -> (b: bool)
        ensures
            b == self@.waiting(),
    {
        self.text.as_str().is_empty() && match self.terminal {
            Terminal::Iterm2 => self.misses < 100,
            _ => true,
        }
    }

    /// Takes in one look at the file: `None` where it is missing, else what it
    /// holds. Returns how many milliseconds to sleep before the next look.
    pub fn observe(&mut self, seen: Option<String>) -> (sleep: Option<u64>)
        requires
            old(self)@.waiting(),
        ensures
            match seen {
                None => final(self)@ == old(self)@.after(None),
                Some(text) => final(self)@ == old(self)@.after(Some(text@)),
            },
            sleep == (if seen is None {
                Some(poll_interval(old(self)@.terminal))
            } else {
                None
            }),
    {
        match seen {
            Some(text) => {
                self.text = text;
                None
            },
            None => match self.terminal {
                Terminal::Iterm2 => {
                    self.misses = self.misses + 1;
                    Some(50)
                },
                _ => Some(5),
            },
        }
    }

    /// The process id, once the wait is over.
    pub fn finish(&self) -> (r: Result<i32, HostError>)
        requires
            !self@.waiting(),
        ensures
            match self@.outcome() {
                Ok(n) => r matches Ok(v) && v == n,
                Err(e) => r == Err::<i32, HostError>(e),
            },
    {
        if self.text.as_str().is_empty() {
            return Err(HostError::PidTimeout);
        }
        match parse_pid(self.text.as_str()) {
            Ok(pid) => Ok(pid),
            Err(e) => Err(HostError::PidInvalid(e)),
        }
    }
}

proof fn lemma_start_trimmed_skips(space: Seq<char>, text: Seq<char>)
    requires
        forall|i: int| 0 <= i < space.len() ==> white_space(#[trigger] space[i]),
    ensures
        start_trimmed(space + text) == start_trimmed(text),
    decreases space.len(),
{
    if space.len() == 0 {
        assert(space + text =~= text);
    } else {
        let rest = space.drop_first();
        assert forall|i: int| 0 <= i < rest.len() implies white_space(#[trigger] rest[i]) by {
            assert(rest[i] == space[i + 1]);
        }
        lemma_start_trimmed_skips(rest, text);
        assert(white_space(space[0]));
        assert((space + text).drop_first() =~= rest + text);
    }
}

proof fn lemma_end_trimmed_skips(text: Seq<char>, space: Seq<char>)
    requires
        forall|i: int| 0 <= i < space.len() ==> white_space(#[trigger] space[i]),
    ensures
        end_trimmed(text + space) == end_trimmed(text),
    decreases space.len(),
{
    if space.len() == 0 {
        assert(text + space =~= text);
    } else {
        let rest = space.drop_last();
        assert forall|i: int| 0 <= i < rest.len() implies white_space(#[trigger] rest[i]) by {
            assert(rest[i] == space[i]);
        }
        lemma_end_trimmed_skips(text, rest);
        assert(white_space(space[space.len() - 1]));
        assert((text + space).drop_last() =~= text + rest);
    }
}

proof fn lemma_decimal_text(n: nat)
    ensures
        decimal_text(n).len() > 0,
        forall|i: int|
            0 <= i < decimal_text(n).len() ==> decimal_digit(#[trigger] decimal_text(n)[i]),
        decimal_value(decimal_text(n)) == n,
    decreases n,
{
    let digits = decimal_text(n);
    let last = (n % 10 + '0' as int) as char;
    if n < 10 {
        assert(digits.drop_last() =~= Seq::<char>::empty());
        assert(decimal_value(digits.drop_last()) == 0);
        assert(digits.last() == last);
    } else {
        lemma_decimal_text(n / 10);
        assert(digits.drop_last() =~= decimal_text(n / 10));
        assert(digits.last() == last);
        assert forall|i: int| 0 <= i < digits.len() implies decimal_digit(#[trigger] digits[i]) by {
            if i < digits.len() - 1 {
                assert(digits[i] == decimal_text(n / 10)[i]);
            }
        }
    }
}

/// Law: a process id is read back. A number that a shell prints, with any white
/// space around it, is parsed as that number.
pub proof fn law_pid_is_read_back(n: int, before: Seq<char>, after: Seq<char>)
    requires
        i32::MIN <= n <= i32::MAX,
        forall|i: int| 0 <= i < before.len() ==> white_space(#[trigger] before[i]),
        forall|i: int| 0 <= i < after.len() ==> white_space(#[trigger] after[i]),
    ensures
        integer_in(trimmed(before + integer_text(n) + after)) == Ok::<int, PidParseError>(n),
{
    let text = integer_text(n);
    let digits = decimal_text(if n < 0 {
        (-n) as nat
    } else {
        n as nat
    });
    lemma_decimal_text(if n < 0 {
        (-n) as nat
    } else {
        n as nat
    });
    assert(decimal_digit(digits[0]) && decimal_digit(digits[digits.len() - 1]));
    assert(text.last() == digits.last());
    assert(!white_space(text[0]) && !white_space(text.last()));
    assert(before + text + after =~= before + (text + after));
    lemma_start_trimmed_skips(before, text + after);
    assert((text + after)[0] == text[0]);
    lemma_end_trimmed_skips(text, after);
    assert(trimmed(before + text + after) == text);
    if n < 0 {
        assert(text.drop_first() =~= digits);
    }
    lemma_leading_digits_extend(digits, digits.len() as int);
    assert(digits.skip(digits.len() as int).len() == 0);
    assert(leading_digits(digits) =~= digits);
}

/// How many of a number of looks found no file.
pub open spec fn misses_in(seen: Seq<Option<Seq<char>>>) -> nat
    decreases seen.len(),
{
    if seen.len() == 0 {
        0
    } else {
        misses_in(seen.drop_last()) + (if seen.last() is None {
            1nat
        } else {
            0nat
        })
    }
}

/// Whether no look found anything in the file.
pub open spec fn found_nothing(seen: Seq<Option<Seq<char>>>) -> bool {
    forall|i: int| 0 <= i < seen.len() ==> (#[trigger] seen[i] matches Some(text) ==> text.len() == 0)
}

proof fn lemma_found_nothing(terminal: Terminal, seen: Seq<Option<Seq<char>>>)
    requires
        found_nothing(seen),
    ensures
        WaitState::begun(terminal).after_all(seen) == (WaitState {
            terminal,
            misses: if miss_limit(terminal) is Some {
                misses_in(seen)
            } else {
                0
            },
            text: Seq::empty(),
        }),
    decreases seen.len(),
{
    if seen.len() > 0 {
        let earlier = seen.drop_last();
        assert forall|i: int| 0 <= i < earlier.len() implies (#[trigger] earlier[i] matches Some(
            text,
        ) ==> text.len() == 0) by {
            assert(earlier[i] == seen[i]);
        }
        lemma_found_nothing(terminal, earlier);
        assert(seen.last() == seen[seen.len() - 1]);
        if let Some(text) = seen.last() {
            assert(text =~= Seq::<char>::empty());
        }
    }
}

/// Law: as long as nothing is found, the wait for iTerm2 goes on until the file was
/// missing a hundred times, and then ends as timed out; a file that is there but
/// empty does not count.
pub proof fn law_iterm2_gives_up(seen: Seq<Option<Seq<char>>>)
    requires
        found_nothing(seen),
    ensures
        ({
            let wait = WaitState::begun(Terminal::Iterm2).after_all(seen);
            &&& wait.waiting() <==> misses_in(seen) < 100
            &&& wait.outcome() == Err::<int, HostError>(HostError::PidTimeout)
        }),
{
    lemma_found_nothing(Terminal::Iterm2, seen);
}

/// Law: as long as nothing is found, the wait for the other terminals goes on.
pub proof fn law_others_wait_on(terminal: Terminal, seen: Seq<Option<Seq<char>>>)
    requires
        terminal != Terminal::Iterm2,
        found_nothing(seen),
    ensures
        WaitState::begun(terminal).after_all(seen).waiting(),
{
    lemma_found_nothing(terminal, seen);
}

/// Law: the first text that is found, while the host waits, ends the wait, and decides
/// what it gives. Where the text is a process id as a shell prints it, the wait gives that
/// process id.
pub proof fn law_first_text_decides(
    terminal: Terminal,
    seen: Seq<Option<Seq<char>>>,
    text: Seq<char>,
)
    requires
        found_nothing(seen),
        WaitState::begun(terminal).after_all(seen).waiting(),
        text.len() > 0,
    ensures
        ({
            let wait = WaitState::begun(terminal).after_all(seen.push(Some(text)));
            &&& !wait.waiting()
            &&& wait.text == text
            &&& forall|n: int|
                i32::MIN <= n <= i32::MAX && text == #[trigger] integer_text(n) + "\n"@
                    ==> wait.outcome() == Ok::<int, HostError>(n)
        }),
{
    let whole = seen.push(Some(text));
    assert(whole.drop_last() =~= seen);
    lemma_found_nothing(terminal, seen);
    let wait = WaitState::begun(terminal).after_all(whole);
    assert(wait.text == text);
    assert forall|n: int|
        i32::MIN <= n <= i32::MAX && text == #[trigger] integer_text(n)
            + "\n"@ implies wait.outcome() == Ok::<int, HostError>(n) by {
        reveal_strlit("\n");
        law_pid_is_read_back(n, Seq::empty(), "\n"@);
        assert(Seq::<char>::empty() + integer_text(n) + "\n"@ =~= text);
    }
}

/// Law: trimming takes away the white space around a text and nothing else.
pub proof fn law_trim_keeps_the_core(before: Seq<char>, core: Seq<char>, after: Seq<char>)
    requires
        forall|i: int| 0 <= i < before.len() ==> white_space(#[trigger] before[i]),
        forall|i: int| 0 <= i < after.len() ==> white_space(#[trigger] after[i]),
        core.len() > 0 ==> !white_space(core[0]) && !white_space(core.last()),
    ensures
        trimmed(before + core + after) == core,
{
    assert(before + core + after =~= before + (core + after));
    lemma_start_trimmed_skips(before, core + after);
    if core.len() > 0 {
        assert((core + after)[0] == core[0]);
        lemma_end_trimmed_skips(core, after);
    } else {
        assert(core + after =~= after + core);
        lemma_start_trimmed_skips(after, core);
        assert(core =~= Seq::<char>::empty());
    }
}

/// Law: these characters are white space, and no others.
pub proof fn law_white_space(c: char)
    ensures
        white_space(c) <==> c == '\t' || c == '\n' || c == '\x0b' || c == '\x0c' || c == '\r' || c
            == ' ' || c == '\u{85}' || c == '\u{a0}' || c == '\u{1680}' || '\u{2000}' <= c
            <= '\u{200a}' || c == '\u{2028}' || c == '\u{2029}' || c == '\u{202f}' || c
            == '\u{205f}' || c == '\u{3000}',
{
}

/// Law: each further digit moves the number one place up.
pub proof fn law_digits_by_place(digits: Seq<char>, digit: char)
    ensures
        decimal_value(Seq::empty()) == 0,
        decimal_value(digits.push(digit)) == 10 * decimal_value(digits) + (digit as int - 48),
{
    assert(digits.push(digit).drop_last() =~= digits);
}

/// Law: what a process id is parsed as follows from its sign and its digits. The text is
/// `sign`, `digits` and `rest` with white space around it, where `rest` starts with no
/// digit. It is a number if and only if there are digits, there is no rest, and the number
/// is in the range of `i32`; a number that is out of range is refused as such even before a
/// rest, and all else as an invalid digit.
pub proof fn law_pid_by_parts(
    text: &str,
    r: Result<i32, PidParseError>,
    before: Seq<char>,
    sign: Option<char>,
    digits: Seq<char>,
    rest: Seq<char>,
    after: Seq<char>,
)
    requires
        call_ensures(parse_pid, (text,), r),
        ({
            let head = match sign {
                Some(c) => seq![c],
                None => Seq::empty(),
            };
            text@ == before + (head + digits + rest) + after
        }),
        forall|i: int| 0 <= i < before.len() ==> white_space(#[trigger] before[i]),
        forall|i: int| 0 <= i < after.len() ==> white_space(#[trigger] after[i]),
        sign matches Some(c) ==> c == '+' || c == '-',
        forall|i: int| 0 <= i < digits.len() ==> '0' <= #[trigger] digits[i] <= '9',
        rest.len() > 0 ==> !('0' <= rest[0] <= '9') && !white_space(rest.last()),
        rest.len() > 0 && sign is None && digits.len() == 0 ==> rest[0] != '+' && rest[0] != '-'
            && !white_space(rest[0]),
    ensures
        ({
            let value = decimal_value(digits);
            if sign is None && digits.len() == 0 && rest.len() == 0 {
                r == Err::<i32, PidParseError>(PidParseError::Empty)
            } else if sign != Some('-') && value > 2147483647 {
                r == Err::<i32, PidParseError>(PidParseError::TooLarge)
            } else if sign == Some('-') && value > 2147483648 {
                r == Err::<i32, PidParseError>(PidParseError::TooSmall)
            } else if digits.len() == 0 || rest.len() > 0 {
                r == Err::<i32, PidParseError>(PidParseError::InvalidDigit)
            } else if sign == Some('-') {
                r matches Ok(n) && n == -value
            } else {
                r matches Ok(n) && n == value
            }
        }),
{
    let head = match sign {
        Some(c) => seq![c],
        None => Seq::empty(),
    };
    let core = head + digits + rest;
    if core.len() > 0 {
        if sign is Some {
            assert(core[0] == sign->0);
        } else if digits.len() > 0 {
            assert(core[0] == digits[0]);
        } else {
            assert(core[0] == rest[0]);
        }
        if rest.len() > 0 {
            assert(core.last() == rest.last());
        } else if digits.len() > 0 {
            assert(core.last() == digits[digits.len() - 1]);
        } else {
            assert(core.last() == sign->0);
        }
    }
    law_trim_keeps_the_core(before, core, after);
    assert(trimmed(text@) == core);
    let tail = digits + rest;
    if sign is Some {
        assert(starts_with_sign(core));
        assert(core.drop_first() =~= tail);
    } else {
        assert(!starts_with_sign(core));
        assert(core =~= tail);
    }
    let n = digits.len() as int;
    assert forall|i: int| 0 <= i < n implies decimal_digit(#[trigger] tail[i]) by {
        assert(tail[i] == digits[i]);
    }
    lemma_leading_digits_extend(tail, n);
    assert(tail.take(n) =~= digits);
    assert(tail.skip(n) =~= rest);
    assert(leading_digits(rest) =~= Seq::<char>::empty());
    assert(leading_digits(tail) =~= digits);
    if rest.len() > 0 {
        assert(digits.len() < tail.len());
    }
}

/// Law: a wait that is over is timed out where nothing was found, and else gives what the
/// text is parsed as.
pub proof fn law_outcome_of_a_wait(wait: &PidWait, r: Result<i32, HostError>)
    requires
        call_ensures(PidWait::finish, (wait,), r),
    ensures
        wait@.text.len() == 0 ==> r == Err::<i32, HostError>(HostError::PidTimeout),
        wait@.text.len() > 0 ==> match integer_in(trimmed(wait@.text)) {
            Ok(n) => r matches Ok(pid) && pid == n,
            Err(e) => r == Err::<i32, HostError>(HostError::PidInvalid(e)),
        },
{
}

/// Law: the host waits for iTerm2 a hundred times a twentieth of a second, and for the
/// other terminals without end, a two-hundredth of a second at a time.
pub proof fn law_times_to_wait()
    ensures
        poll_interval(Terminal::Gnome) == 5,
        poll_interval(Terminal::Alacritty) == 5,
        poll_interval(Terminal::Iterm2) == 50,
        miss_limit(Terminal::Gnome) == None::<nat>,
        miss_limit(Terminal::Alacritty) == None::<nat>,
        miss_limit(Terminal::Iterm2) == Some(100nat),
{
}

/// Law: one look at the file changes a wait by what was seen and by nothing else: a text
/// takes the place of the one before, and a missing file is counted where that is limited.
pub proof fn law_one_look(wait: WaitState, text: Seq<char>)
    ensures
        wait.after(Some(text)).text == text,
        wait.after(Some(text)).misses == wait.misses,
        wait.after(Some(text)).terminal == wait.terminal,
        wait.after(None).text == wait.text,
        wait.after(None).misses == (if wait.terminal == Terminal::Iterm2 {
            (wait.misses + 1) as nat
        } else {
            wait.misses
        }),
        wait.after(None).terminal == wait.terminal,
        wait.waiting() <==> wait.text.len() == 0 && (wait.terminal == Terminal::Iterm2
            ==> wait.misses < 100),
        WaitState::begun(wait.terminal).terminal == wait.terminal,
        WaitState::begun(wait.terminal).misses == 0,
        WaitState::begun(wait.terminal).text.len() == 0,
{
}

/// Law: a wait that has just begun goes on, and knows its terminal.
pub proof fn law_wait_begins(terminal: Terminal, wait: PidWait, waiting: bool)
    requires
        call_ensures(PidWait::new, (terminal,), wait),
        call_ensures(PidWait::is_waiting, (&wait,), waiting),
    ensures
        waiting,
        wait@.terminal == terminal,
        wait@.misses == 0,
        wait@.text.len() == 0,
{
}

/// Law: after one look, the host sleeps if and only if the file was missing, for longer
/// with iTerm2, and looks again unless the file held a text or has been missing for the
/// hundredth time with iTerm2.
pub proof fn law_wait_after_a_look(
    wait: PidWait,
    seen: Option<String>,
    sleep: Option<u64>,
    later: PidWait,
    waiting: bool,
)
    requires
        wait@.waiting(),
        exists|s: &mut PidWait| #[trigger]
            call_ensures(PidWait::observe, (s, seen), sleep) && *s == wait && *final(s) == later,
        call_ensures(PidWait::is_waiting, (&later,), waiting),
    ensures
        later@.terminal == wait@.terminal,
        seen matches Some(text) ==> sleep is None && later@.text == text@ && later@.misses
            == wait@.misses && (waiting <==> text@.len() == 0),
        seen is None && wait@.terminal == Terminal::Iterm2 ==> sleep == Some(50u64)
            && later@.misses == wait@.misses + 1 && (waiting <==> wait@.misses < 99),
        seen is None && wait@.terminal != Terminal::Iterm2 ==> sleep == Some(5u64)
            && later@.misses == wait@.misses && waiting,
        seen is None ==> later@.text == wait@.text,
{
}

/// Law: the text that ends a wait gives what it is parsed as.
pub proof fn law_wait_gives_what_is_parsed(
    wait: &PidWait,
    r: Result<i32, HostError>,
    text: &str,
    parsed: Result<i32, PidParseError>,
)
    requires
        call_ensures(PidWait::finish, (wait,), r),
        wait@.text == text@,
        call_ensures(parse_pid, (text,), parsed),
    ensures
        text@.len() == 0 ==> r == Err::<i32, HostError>(HostError::PidTimeout),
        text@.len() > 0 ==> r == (match parsed {
            Ok(pid) => Ok::<i32, HostError>(pid),
            Err(e) => Err::<i32, HostError>(HostError::PidInvalid(e)),
        }),
{
}

} // verus!

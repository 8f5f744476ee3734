//! The lines that the user types: which of them end the session, which attach
//! a tool provider, and which are messages for the model.

use vstd::prelude::*;
use crate::text::same_text;

verus! {

/// Whether `c` has the Unicode property `White_Space`.
pub open spec fn is_white_space(c: char) -> bool {
    ||| '\u{9}' <= c <= '\u{d}'
    ||| c == ' '
    ||| c == '\u{85}'
    ||| c == '\u{a0}'
    ||| c == '\u{1680}'
    ||| '\u{2000}' <= c <= '\u{200a}'
    ||| c == '\u{2028}'
    ||| c == '\u{2029}'
    ||| c == '\u{202f}'
    ||| c == '\u{205f}'
    ||| c == '\u{3000}'
}

/// Whether `c` has the Unicode property `White_Space`.
pub fn is_whitespace(c: char) -> (yes: bool)
    ensures
        yes == is_white_space(c),
{
    ('\u{9}' <= c && c <= '\u{d}') || c == ' ' || c == '\u{85}' || c == '\u{a0}' || c
        == '\u{1680}' || ('\u{2000}' <= c && c <= '\u{200a}') || c == '\u{2028}' || c
        == '\u{2029}' || c == '\u{202f}' || c == '\u{205f}' || c == '\u{3000}'
}

/// `text` without the white space at its start.
pub open spec fn trimmed_start(text: Seq<char>) -> Seq<char>
    decreases text.len(),
{
    if text.len() > 0 && is_white_space(text[0]) {
        trimmed_start(text.skip(1))
    } else {
        text
    }
}

/// `text` without the white space at its end.
pub open spec fn trimmed_end(text: Seq<char>) -> Seq<char>
    decreases text.len(),
{
    if text.len() > 0 && is_white_space(text.last()) {
        trimmed_end(text.drop_last())
    } else {
        text
    }
}

/// `text` without the white space at its start and at its end.
pub open spec fn trimmed(text: Seq<char>) -> Seq<char> {
    trimmed_end(trimmed_start(text))
}

proof fn lemma_trimmed_start(text: Seq<char>, i: int)
    requires
        0 <= i <= text.len(),
        forall|k: int| 0 <= k < i ==> is_white_space(#[trigger] text[k]),
        i < text.len() ==> !is_white_space(text[i]),
    ensures
        trimmed_start(text) == text.skip(i),
    decreases i,
{
    if i == 0 {
        assert(text.skip(0) =~= text);
    } else {
        let rest = text.skip(1);
        assert forall|k: int| 0 <= k < i - 1 implies is_white_space(#[trigger] rest[k]) by {
            assert(rest[k] == text[k + 1]);
        }
        lemma_trimmed_start(rest, i - 1);
        assert(rest.skip(i - 1) =~= text.skip(i));
    }
}

proof fn lemma_trimmed_end(text: Seq<char>, j: int)
    requires
        0 <= j <= text.len(),
        forall|k: int| j <= k < text.len() ==> is_white_space(#[trigger] text[k]),
        j > 0 ==> !is_white_space(text[j - 1]),
    ensures
        trimmed_end(text) == text.take(j),
    decreases text.len() - j,
{
    if j == text.len() {
        assert(text.take(j) =~= text);
    } else {
        let rest = text.drop_last();
        assert forall|k: int| j <= k < rest.len() implies is_white_space(#[trigger] rest[k]) by {
            assert(rest[k] == text[k]);
        }
        lemma_trimmed_end(rest, j);
        assert(rest.take(j) =~= text.take(j));
    }
}

/// `text` without the white space at its start and at its end.
pub fn trim(text: &str) -> (out: &str)
    ensures
        out@ == trimmed(text@),
{
    let n = text.unicode_len();
    let mut start: usize = 0;
    while start < n && is_whitespace(text.get_char(start))
        invariant
            start <= n,
            n == text@.len(),
            forall|k: int| 0 <= k < start ==> is_white_space(#[trigger] text@[k]),
        decreases n - start,
    {
        start += 1;
    }
    let mut end: usize = n;
    while end > start && is_whitespace(text.get_char(end - 1))
        invariant
            start <= end <= n,
            n == text@.len(),
            forall|k: int| end <= k < n ==> is_white_space(#[trigger] text@[k]),
        decreases end,
    {
        end -= 1;
    }
    proof {
        lemma_trimmed_start(text@, start as int);
        let rest = text@.skip(start as int);
        assert forall|k: int| end - start <= k < rest.len() implies is_white_space(
            #[trigger] rest[k],
        ) by {
            assert(rest[k] == text@[k + start]);
        }
        if end > start {
            assert(rest[end - start - 1] == text@[end - 1]);
        }
        lemma_trimmed_end(rest, end - start);
        assert(rest.take(end - start) =~= text@.subrange(start as int, end as int));
    }
    text.substring_char(start, end)
}

/// The lower-case form of an upper-case ASCII letter; any other character
/// as it is.
pub open spec fn ascii_lower(c: char) -> char {
    match c {
        'A' => 'a',
        'B' => 'b',
        'C' => 'c',
        'D' => 'd',
        'E' => 'e',
        'F' => 'f',
        'G' => 'g',
        'H' => 'h',
        'I' => 'i',
        'J' => 'j',
        'K' => 'k',
        'L' => 'l',
        'M' => 'm',
        'N' => 'n',
        'O' => 'o',
        'P' => 'p',
        'Q' => 'q',
        'R' => 'r',
        'S' => 's',
        'T' => 't',
        'U' => 'u',
        'V' => 'v',
        'W' => 'w',
        'X' => 'x',
        'Y' => 'y',
        'Z' => 'z',
        _ => c,
    }
}

/// The lower-case form of an upper-case ASCII letter; any other character
/// as it is.
pub fn to_ascii_lower(c: char) -> (lower: char)
    ensures
        lower == ascii_lower(c),
{
    match c {
        'A' => 'a',
        'B' => 'b',
        'C' => 'c',
        'D' => 'd',
        'E' => 'e',
        'F' => 'f',
        'G' => 'g',
        'H' => 'h',
        'I' => 'i',
        'J' => 'j',
        'K' => 'k',
        'L' => 'l',
        'M' => 'm',
        'N' => 'n',
        'O' => 'o',
        'P' => 'p',
        'Q' => 'q',
        'R' => 'r',
        'S' => 's',
        'T' => 't',
        'U' => 'u',
        'V' => 'v',
        'W' => 'w',
        'X' => 'x',
        'Y' => 'y',
        'Z' => 'z',
        _ => c,
    }
}

/// `text` with its ASCII letters in lower case.
pub open spec fn folded(text: Seq<char>) -> Seq<char> {
    text.map_values(|c: char| ascii_lower(c))
}

/// Whether two texts are the same but for the case of their ASCII letters.
pub fn eq_ignore_ascii_case(left: &str, right: &str) -> (same: bool)
    ensures
        same == (folded(left@) == folded(right@)),
{
    let n = left.unicode_len();
    if right.unicode_len() != n {
        assert(folded(left@).len() != folded(right@).len());
        return false;
    }
    let mut i: usize = 0;
    while i < n
        invariant
            i <= n,
            n == left@.len(),
            n == right@.len(),
            forall|k: int| 0 <= k < i ==> ascii_lower(left@[k]) == ascii_lower(right@[k]),
        decreases n - i,
    {
        if to_ascii_lower(left.get_char(i)) != to_ascii_lower(right.get_char(i)) {
            assert(folded(left@)[i as int] != folded(right@)[i as int]);
            return false;
        }
        i += 1;
    }
    assert(folded(left@) =~= folded(right@));
    true
}

/// What a line asks for.
#[derive(Debug, PartialEq, Eq)]
pub enum Command {
    /// Nothing: the line is blank.
    Empty,
    /// End the session.
    Exit,
    /// Attach the tool provider of this name.
    Connect { server_name: String },
    /// Send this text to the model.
    Message { text: String },
}

/// The value of a [`Command`].
pub enum CommandView {
    Empty,
    Exit,
    Connect { server_name: Seq<char> },
    Message { text: Seq<char> },
}

impl View for Command {
    type V = CommandView;

    open spec fn view(&self) -> CommandView {
        match self {
            Command::Empty => CommandView::Empty,
            Command::Exit => CommandView::Exit,
            Command::Connect { server_name } => CommandView::Connect {
                server_name: server_name@,
            },
            Command::Message { text } => CommandView::Message { text: text@ },
        }
    }
}

/// The word that ends the session.
pub const EXIT: &'static str = "exit";

/// The other word that ends the session.
pub const QUIT: &'static str = "quit";

/// What a line that attaches a tool provider starts with.
pub const CONNECT_PREFIX: &'static str = "mcp ";

/// What `line` asks for. The white space around the line does not count. A
/// blank line asks for nothing; `exit` and `quit`, in any case of their
/// letters, end the session; `mcp` followed by a space and a name attaches
/// that provider; any other line is a message.
pub open spec fn command_of(line: Seq<char>) -> CommandView {
    let input = trimmed(line);
    if input.len() == 0 {
        CommandView::Empty
    } else if folded(input) == folded(EXIT@) || folded(input) == folded(QUIT@) {
        CommandView::Exit
    } else if CONNECT_PREFIX@.is_prefix_of(input) {
        CommandView::Connect { server_name: trimmed(input.skip(CONNECT_PREFIX@.len() as int)) }
    } else {
        CommandView::Message { text: input }
    }
}

/// Reads what `line` asks for.
pub fn parse_command(line: &str) -> (command: Command)
    ensures
        command@ == command_of(line@),
{
    let input = trim(line);
    if input.is_empty() {
        return Command::Empty;
    }
    if eq_ignore_ascii_case(input, EXIT) || eq_ignore_ascii_case(input, QUIT) {
        return Command::Exit;
    }
    proof {
        reveal_strlit("mcp ");
    }
    let n = input.unicode_len();
    if n >= 4 && same_text(input.substring_char(0, 4), CONNECT_PREFIX) {
        assert(CONNECT_PREFIX@.is_prefix_of(input@));
        assert(input@.subrange(4, n as int) =~= input@.skip(4));
        let server_name = trim(input.substring_char(4, n));
        return Command::Connect { server_name: server_name.to_owned() };
    }
    assert(!CONNECT_PREFIX@.is_prefix_of(input@));
    Command::Message { text: input.to_owned() }
}

} // verus!

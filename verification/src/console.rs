//! The commands of the connection console: a line of text names either
//! `exit` or `listen` with the endpoint to listen on.
//!
//! A line is read as words separated by any amount of white space. Only
//! the first word, and for `listen` the second, count; what follows is
//! ignored.

use vstd::prelude::*;
use vstd::string::StrSliceExecFns;

verus! {

/// A command of the console.
#[derive(Clone, Debug, PartialEq, Eq)]
pub enum Command {
    /// Leave the console.
    Exit,
    /// Listen on this endpoint.
    Listen(String),
}

/// The error of a line that is no command.
#[derive(Clone, Copy, Debug, PartialEq, Eq, Structural)]
pub struct ParseError;

/// A command, as a value.
pub enum CommandView {
    Exit,
    Listen(Seq<char>),
}

impl View for Command {
    type V = CommandView;

    open spec fn view(&self) -> CommandView {
        match self {
            Command::Exit => CommandView::Exit,
            Command::Listen(endpoint) => CommandView::Listen(endpoint@),
        }
    }
}

/// Whether `c` is white space: one of the characters with the Unicode
/// property `White_Space`.
pub open spec fn white_space(c: char) -> bool {
    let code = c as u32;
    ||| 0x09 <= code <= 0x0D
    ||| code == 0x20
    ||| code == 0x85
    ||| code == 0xA0
    ||| code == 0x1680
    ||| 0x2000 <= code <= 0x200A
    ||| code == 0x2028
    ||| code == 0x2029
    ||| code == 0x202F
    ||| code == 0x205F
    ||| code == 0x3000
}

/// How many characters at the front of `s` are white space.
pub open spec fn leading_spaces(s: Seq<char>) -> nat
    decreases s.len(),
{
    if s.len() > 0 && white_space(s[0]) {
        1 + leading_spaces(s.skip(1))
    } else {
        0
    }
}

/// How many characters at the front of `s` are not white space.
pub open spec fn leading_word(s: Seq<char>) -> nat
    decreases s.len(),
{
    if s.len() > 0 && !white_space(s[0]) {
        1 + leading_word(s.skip(1))
    } else {
        0
    }
}

/// The first word of `s`, and what follows it; nothing where `s` holds no
/// word.
pub open spec fn first_word(s: Seq<char>) -> Option<(Seq<char>, Seq<char>)> {
    let start = leading_spaces(s) as int;
    let len = leading_word(s.skip(start)) as int;
    if len == 0 {
        None
    } else {
        Some((s.subrange(start, start + len), s.skip(start + len)))
    }
}

/// The command that `line` stands for.
pub open spec fn parsed(line: Seq<char>) -> Option<CommandView> {
    match first_word(line) {
        None => None,
        Some((word, rest)) => if word == "exit"@ {
            Some(CommandView::Exit)
        } else if word == "listen"@ {
            match first_word(rest) {
                Some((endpoint, _)) => Some(CommandView::Listen(endpoint)),
                None => None,
            }
        } else {
            None
        },
    }
}

/// Whether `c` is white space.
pub fn is_white_space(c: char) -> (r: bool)
    ensures
        r == white_space(c),
{
    let code: u32 = c as u32;
    (0x09 <= code && code <= 0x0D) || code == 0x20 || code == 0x85 || code == 0xA0 || code
        == 0x1680 || (0x2000 <= code && code <= 0x200A) || code == 0x2028 || code == 0x2029
        || code == 0x202F || code == 0x205F || code == 0x3000
}

/// Reads the first word of `line` at or behind the character position
/// `from`: the word and the position behind it, or nothing where only
/// white space is left.
fn word_from(line: &str, from: usize) -> (r: Option<(String, usize)>)
    requires
        from <= line@.len(),
    ensures
        match r {
            Some((word, next)) => next <= line@.len() && first_word(line@.skip(from as int))
                == Some((word@, line@.skip(next as int))),
            None => first_word(line@.skip(from as int)) is None,
        },
{
    let n = line.unicode_len();
    let ghost rest = line@.skip(from as int);
    let mut start: usize = from;
    proof {
        assert(line@.skip(from as int).skip(0) =~= line@.skip(from as int));
    }
    while start < n && is_white_space(line.get_char(start))
        invariant
            from <= start <= n,
            n == line@.len(),
            rest == line@.skip(from as int),
            leading_spaces(rest) == (start - from) + leading_spaces(line@.skip(start as int)),
        decreases n - start,
    {
        proof {
            let here = line@.skip(start as int);
            assert(here[0] == line@[start as int]);
            assert(here.skip(1) =~= line@.skip(start + 1));
        }
        start = start + 1;
    }
    proof {
        let here = line@.skip(start as int);
        if start < n {
            assert(here[0] == line@[start as int]);
        }
        assert(leading_spaces(here) == 0);
        assert(rest.skip((start - from) as int) =~= here);
    }
    let mut word = String::new();
    let mut end: usize = start;
    proof {
        assert(line@.subrange(start as int, end as int) =~= Seq::<char>::empty());
    }
    while end < n && !is_white_space(line.get_char(end))
        invariant
            start <= end <= n,
            n == line@.len(),
            word@ == line@.subrange(start as int, end as int),
            leading_word(line@.skip(start as int)) == (end - start) + leading_word(
                line@.skip(end as int),
            ),
        decreases n - end,
    {
        proof {
            let here = line@.skip(end as int);
            assert(here[0] == line@[end as int]);
            assert(here.skip(1) =~= line@.skip(end + 1));
            assert(line@.subrange(start as int, end as int).push(line@[end as int])
                =~= line@.subrange(start as int, end + 1));
        }
        word.push(line.get_char(end));
        end = end + 1;
    }
    proof {
        let here = line@.skip(end as int);
        if end < n {
            assert(here[0] == line@[end as int]);
        }
        assert(leading_word(here) == 0);
        let s = (start - from) as int;
        let l = (end - start) as int;
        assert(rest.subrange(s, s + l) =~= line@.subrange(start as int, end as int));
        assert(rest.skip(s + l) =~= line@.skip(end as int));
    }
    if end == start {
        None
    } else {
        Some((word, end))
    }
}

/// Reads a line as a command. A line without a first word, with another
/// first word than `exit` or `listen`, or with `listen` and no endpoint
/// is no command.
pub fn parse(line: String) -> (r: Result<Command, ParseError>)
    ensures
        match r {
            Ok(command) => parsed(line@) == Some(command@),
            Err(_) => parsed(line@) is None,
        },
{
    let text = line.as_str();
    proof {
        assert(text@.skip(0) =~= text@);
    }
    match word_from(text, 0) {
        None => Err(ParseError),
        Some((word, next)) => {
            if word == "exit".to_owned() {
                Ok(Command::Exit)
            } else if word == "listen".to_owned() {
                match word_from(text, next) {
                    Some((endpoint, _)) => Ok(Command::Listen(endpoint)),
                    None => Err(ParseError),
                }
            } else {
                Err(ParseError)
            }
        },
    }
}

} // verus!

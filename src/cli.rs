//! Commands of the link shortener's prompt.

use vstd::prelude::*;
use vstd::string::*;

verus! {

/// A command of the prompt.
#[derive(PartialEq, Eq, Structural, Clone, Copy, Debug)]
pub enum Command {
    Shorten,
    Get,
    Delete,
    List,
}

/// The lower-case form of a string, as `str::to_lowercase` gives it.
pub uninterp spec fn lower_of(s: Seq<char>) -> Seq<char>;

/// Relies on `str::to_lowercase`: the result depends on the characters alone.
#[verifier::external_body]
fn lowercase(s: &str) -> (r: String)
    ensures
        r@ == lower_of(s@),
{
    s.to_lowercase()
}

/// The command that a lower-case word names.
pub open spec fn command_named(w: Seq<char>) -> Option<Command> {
    if w == "shorten"@ {
        Some(Command::Shorten)
    } else if w == "get"@ {
        Some(Command::Get)
    } else if w == "delete"@ {
        Some(Command::Delete)
    } else if w == "list"@ {
        Some(Command::List)
    } else {
        None
    }
}

fn same_text(a: &str, b: &str) -> (r: bool)
    ensures
        r == (a@ == b@),
{
    let n = a.unicode_len();
    if n != b.unicode_len() {
        return false;
    }
    let mut i: usize = 0;
    while i < n
        invariant
            n == a@.len(),
            n == b@.len(),
            i <= n,
            a@.take(i as int) == b@.take(i as int),
        decreases n - i,
    {
        if a.get_char(i) != b.get_char(i) {
            return false;
        }
        proof {
            assert(a@.take(i + 1) =~= a@.take(i as int).push(a@[i as int]));
            assert(b@.take(i + 1) =~= b@.take(i as int).push(b@[i as int]));
        }
        i = i + 1;
    }
    proof {
        assert(a@ =~= a@.take(n as int));
        assert(b@ =~= b@.take(n as int));
    }
    true
}

/// The command that a word already in lower case names.
pub fn command_from_lower(w: &str) -> (r: Option<Command>)
    ensures
        r == command_named(w@),
{
    if same_text(w, "shorten") {
        Some(Command::Shorten)
    } else if same_text(w, "get") {
        Some(Command::Get)
    } else if same_text(w, "delete") {
        Some(Command::Delete)
    } else if same_text(w, "list") {
        Some(Command::List)
    } else {
        None
    }
}

/// The command that a word names, in any case.
pub fn parse_command(word: &str) -> (r: Option<Command>)
    ensures
        r == command_named(lower_of(word@)),
{
    let w = lowercase(word);
    command_from_lower(w.as_str())
}

/// The code of a character with ASCII upper-case letters mapped to lower case.
pub open spec fn ascii_folded(c: char) -> u32 {
    if 65 <= c as u32 <= 90 {
        (c as u32 + 32) as u32
    } else {
        c as u32
    }
}

/// `input` reads `exit`, ignoring ASCII case.
pub open spec fn is_exit_word(input: Seq<char>) -> bool {
    &&& input.len() == 4
    &&& ascii_folded(input[0]) == 'e' as u32
    &&& ascii_folded(input[1]) == 'x' as u32
    &&& ascii_folded(input[2]) == 'i' as u32
    &&& ascii_folded(input[3]) == 't' as u32
}

fn fold_char(c: char) -> (r: u32)
    ensures
        r == ascii_folded(c),
{
    let u = c as u32;
    if 65 <= u && u <= 90 {
        u + 32
    } else {
        u
    }
}

/// Whether the input line asks to leave the prompt.
pub fn is_exit(input: &str) -> (r: bool)
    ensures
        r == is_exit_word(input@),
{
    if input.unicode_len() != 4 {
        return false;
    }
    fold_char(input.get_char(0)) == 'e' as u32 && fold_char(input.get_char(1)) == 'x' as u32
        && fold_char(input.get_char(2)) == 'i' as u32 && fold_char(input.get_char(3)) == 't' as u32
}

} // verus!

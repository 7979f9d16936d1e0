//! The player's actions and how a typed line of input selects one.
use vstd::prelude::*;

verus! {

/// What a party does on its turn; also what a hand records in its log.
#[derive(Clone, Copy, Debug, PartialEq, Eq, Structural)]
pub enum Action {
    Hit,
    Stand,
}

/// The text left when leading and trailing whitespace is removed.
pub uninterp spec fn trimmed(s: Seq<char>) -> Seq<char>;

/// Relies on `str::trim`: it removes leading and trailing whitespace, so the
/// result depends on the characters alone.
#[verifier::external_body]
fn trim_text(s: &str) -> (r: &str)
    ensures
        r@ == trimmed(s@),
{
    s.trim()
}

/// The action that already-trimmed input text selects: "h" hits, "s" stands,
/// anything else selects nothing.
pub open spec fn action_of(text: Seq<char>) -> Option<Action> {
    if text == seq!['h'] {
        Some(Action::Hit)
    } else if text == seq!['s'] {
        Some(Action::Stand)
    } else {
        None
    }
}

/// The action that a raw line of input selects, once surrounding whitespace
/// is removed.
pub open spec fn action_of_input(line: Seq<char>) -> Option<Action> {
    action_of(trimmed(line))
}

/// Reads an action from text that has already been trimmed.
pub fn parse_action(text: &str) -> (r: Option<Action>)
    ensures
        r == action_of(text@),
{
    if text.unicode_len() != 1 {
        assert(text@ != seq!['h'] && text@ != seq!['s']);
        return None;
    }
    let c = text.get_char(0);
    if c == 'h' {
        assert(text@ =~= seq!['h']);
        Some(Action::Hit)
    } else if c == 's' {
        assert(text@ =~= seq!['s']);
        Some(Action::Stand)
    } else {
        assert(text@ != seq!['h'] && text@ != seq!['s']);
        None
    }
}

/// Reads an action from a raw line of input: whitespace around it is ignored.
pub fn read_action(line: &str) -> (r: Option<Action>)
    ensures
        r == action_of_input(line@),
{
    parse_action(trim_text(line))
}

} // verus!

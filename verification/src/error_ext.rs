//! Rendering an error chain as a numbered stack of lines.

use crate::decimal::{dec_rep, u32_to_dec};
use crate::extract::strings_view;
use crate::location::{Location, LocationView};
use crate::next_error::{ChainError, NextError};
use vstd::prelude::*;

verus! {

/// An error that can hand out its chain entry: its own location and what
/// it wraps.
pub trait ErrorExt {
    /// The abstract value of the entry.
    spec fn entry_spec(&self) -> (LocationView, NextError);

    /// The error's own location and what it wraps.
    fn entry(&self) -> (r: (&Location, &NextError))
        ensures
            r.0@ == self.entry_spec().0,
            *r.1 == self.entry_spec().1,
    ;
}

impl ErrorExt for ChainError {
    open spec fn entry_spec(&self) -> (LocationView, NextError) {
        (self.location@, self.next)
    }

    fn entry(&self) -> (r: (&Location, &NextError)) {
        (&self.location, &self.next)
    }
}

/// The line for one link of this library's kind:
/// `index: display, at file:line:column`.
pub open spec fn chain_line(i: nat, display: Seq<char>, l: LocationView) -> Seq<char> {
    dec_rep(i) + seq![':', ' '] + display + seq![',', ' ', 'a', 't', ' '] + l.text()
}

/// The line for the foreign error ending a chain: `index: display`.
pub open spec fn std_line(i: nat, display: Seq<char>) -> Seq<char> {
    dec_rep(i) + seq![':', ' '] + display
}

/// The numbered lines of the chain starting at `c`, whose first line gets
/// index `i`.
pub open spec fn stack_lines(c: ChainError, i: nat) -> Seq<Seq<char>>
    decreases c,
{
    seq![chain_line(i, c.display@, c.location@)] + match c.next {
        NextError::Err2(b) => stack_lines(*b, i + 1),
        NextError::Std(s) => seq![std_line(i + 1, s@)],
        NextError::Nothing => Seq::empty(),
    }
}

fn stack_from(c: &ChainError, i: u32) -> (r: Vec<String>)
    requires
        i + c.chain_len() < u32::MAX,
    ensures
        strings_view(r@) =~= stack_lines(*c, i as nat),
    decreases *c,
{
    proof {
        reveal_strlit(": ");
        reveal_strlit(", at ");
    }
    let mut line = u32_to_dec(i);
    line.append(": ");
    line.append(c.display.as_str());
    line.append(", at ");
    let loc = c.location.to_text();
    line.append(loc.as_str());
    proof {
        assert(": "@ =~= seq![':', ' ']);
        assert(", at "@ =~= seq![',', ' ', 'a', 't', ' ']);
        assert(line@ =~= chain_line(i as nat, c.display@, c.location@));
    }
    let mut v: Vec<String> = Vec::new();
    v.push(line);
    match &c.next {
        NextError::Err2(b) => {
            let mut rest = stack_from(b, i + 1);
            v.append(&mut rest);
        },
        NextError::Std(s) => {
            let mut tail = u32_to_dec(i + 1);
            tail.append(": ");
            tail.append(s.as_str());
            proof {
                assert(tail@ =~= std_line((i + 1) as nat, s@));
            }
            v.push(tail);
        },
        NextError::Nothing => {},
    }
    proof {
        assert(strings_view(v@) =~= stack_lines(*c, i as nat));
    }
    v
}

/// Renders the whole chain as numbered lines, outermost error first.
pub fn error_stack(e: &ChainError) -> (r: Vec<String>)
    requires
        e.chain_len() < u32::MAX,
    ensures
        strings_view(r@) =~= stack_lines(*e, 0),
{
    stack_from(e, 0)
}

} // verus!

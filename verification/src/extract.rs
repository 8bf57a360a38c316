//! Rendering a backtrace as the stack of messages it records.
//!
//! Each message becomes one line of the form `type: display`, followed by
//! one indented `at file:line:column` line per location recorded for it.
//! The stack is ordered innermost error first, so the rendered lines come
//! out in reverse of the order they were recorded in.

use crate::backtrace::{
    entries_view, entry_views_wf, has_head, locations_entry_wf, Backtrace, BacktraceEntry,
    EntryView, Message, MessageView,
};
use crate::location::{Location, LocationView};
use vstd::prelude::*;

verus! {

/// The views of a sequence of rendered lines.
pub open spec fn strings_view(v: Seq<String>) -> Seq<Seq<char>> {
    v.map_values(|s: String| s@)
}

/// Mapping to views commutes with appending one line.
pub proof fn lemma_strings_view_push(s: Seq<String>, x: String)
    ensures
        strings_view(s.push(x)) == strings_view(s).push(x@),
{
    assert(s.push(x).len() == s.len() + 1);
    assert(strings_view(s.push(x)).len() == s.len() + 1);
    assert forall|k: int| 0 <= k < s.len() + 1 implies strings_view(s.push(x))[k] == strings_view(
        s,
    ).push(x@)[k] by {
        if k < s.len() {
            assert(s.push(x)[k] == s[k]);
        } else {
            assert(s.push(x)[k] == x);
        }
    }
    assert(strings_view(s.push(x)) =~= strings_view(s).push(x@));
}

/// Mapping to views commutes with concatenation.
pub proof fn lemma_strings_view_concat(a: Seq<String>, b: Seq<String>)
    ensures
        strings_view(a + b) == strings_view(a) + strings_view(b),
{
    assert forall|k: int|
        0 <= k < a.len() + b.len() implies #[trigger] strings_view(a + b)[k] == (strings_view(a)
        + strings_view(b))[k] by {
        if k < a.len() {
            assert((a + b)[k] == a[k]);
        } else {
            assert((a + b)[k] == b[k - a.len()]);
        }
    }
    assert(strings_view(a + b) =~= strings_view(a) + strings_view(b));
}

/// Taking one more element appends exactly that element.
pub proof fn lemma_take_push<A>(s: Seq<A>, i: int)
    requires
        0 <= i < s.len(),
    ensures
        s.take(i).push(s[i]) == s.take(i + 1),
{
    assert(s.take(i).push(s[i]) =~= s.take(i + 1));
}

/// The prefix written before each recorded location.
pub open spec fn at_prefix() -> Seq<char> {
    seq!['\n', ' ', ' ', ' ', ' ', 'a', 't', ' ']
}

/// The line recorded for one message: `type: display`.
pub open spec fn message_text(m: MessageView) -> Seq<char> {
    m.type_label + seq![':', ' '] + m.display
}

/// The `at` lines for a run of locations.
pub open spec fn locs_text(ls: Seq<LocationView>) -> Seq<char>
    decreases ls.len(),
{
    if ls.len() == 0 {
        Seq::empty()
    } else {
        at_prefix() + ls[0].text() + locs_text(ls.skip(1))
    }
}

/// All locations in the leading run of location entries.
pub open spec fn leading_locs(s: Seq<EntryView>) -> Seq<LocationView>
    decreases s.len(),
{
    if s.len() == 0 {
        Seq::empty()
    } else if s[0] is Locations {
        s[0]->Locations_0 + leading_locs(s.skip(1))
    } else {
        Seq::empty()
    }
}

/// What remains after the leading run of location entries.
pub open spec fn after_leading_locs(s: Seq<EntryView>) -> Seq<EntryView>
    decreases s.len(),
{
    if s.len() == 0 {
        s
    } else if s[0] is Locations {
        after_leading_locs(s.skip(1))
    } else {
        s
    }
}

proof fn lemma_after_leading_locs_len(s: Seq<EntryView>)
    ensures
        after_leading_locs(s).len() <= s.len(),
    decreases s.len(),
{
    if s.len() > 0 && s[0] is Locations {
        lemma_after_leading_locs_len(s.skip(1));
    }
}

/// The rendered blocks: one string per message, each carrying the `at`
/// lines of the location entries that follow it.
pub open spec fn blocks_of(s: Seq<EntryView>) -> Seq<Seq<char>>
    decreases s.len(),
    via blocks_of_dec
{
    if s.len() == 0 {
        Seq::empty()
    } else if s[0] is Message {
        seq![message_text(s[0]->Message_0) + locs_text(leading_locs(s.skip(1)))] + blocks_of(
            after_leading_locs(s.skip(1)),
        )
    } else {
        blocks_of(s.skip(1))
    }
}

#[via_fn]
proof fn blocks_of_dec(s: Seq<EntryView>) {
    if s.len() > 0 {
        lemma_after_leading_locs_len(s.skip(1));
    }
}

/// The whole rendered stack, outermost error first: the head line, if the
/// backtrace has a head, then the blocks of the remaining entries.
pub open spec fn full_stack(s: Seq<EntryView>) -> Seq<Seq<char>> {
    if has_head(s) {
        seq![message_text(s[0]->Message_0)] + blocks_of(s.skip(1))
    } else {
        blocks_of(s)
    }
}

proof fn lemma_locs_text_concat(a: Seq<LocationView>, b: Seq<LocationView>)
    ensures
        locs_text(a + b) == locs_text(a) + locs_text(b),
    decreases a.len(),
{
    if a.len() == 0 {
        assert(a + b =~= b);
        assert(locs_text(a) + locs_text(b) =~= locs_text(b));
    } else {
        assert((a + b).skip(1) =~= a.skip(1) + b);
        lemma_locs_text_concat(a.skip(1), b);
        assert(locs_text(a + b) =~= locs_text(a) + locs_text(b));
    }
}

fn render_message(m: &Message) -> (r: String)
    ensures
        r@ == message_text(m@),
{
    proof {
        reveal_strlit(": ");
    }
    let mut s = m.type_label.clone();
    s.append(": ");
    s.append(m.display.as_str());
    proof {
        assert(": "@ =~= seq![':', ' ']);
        assert(s@ =~= message_text(m@));
    }
    s
}

fn append_at_location(s: &mut String, l: &Location)
    ensures
        final(s)@ == old(s)@ + at_prefix() + l@.text(),
{
    proof {
        reveal_strlit("\n    at ");
    }
    s.append("\n    at ");
    let t = l.to_text();
    s.append(t.as_str());
    proof {
        assert("\n    at "@ =~= at_prefix());
        assert(final(s)@ =~= old(s)@ + at_prefix() + l@.text());
    }
}

fn blocks_from(entries: &[BacktraceEntry], i: usize) -> (r: Vec<String>)
    requires
        i <= entries@.len(),
        entry_views_wf(entries_view(entries@)),
    ensures
        strings_view(r@) =~= blocks_of(entries_view(entries@).skip(i as int)),
    decreases entries@.len() - i,
{
    let ghost ev = entries_view(entries@);
    if i == entries.len() {
        let r: Vec<String> = Vec::new();
        proof {
            assert(strings_view(r@) =~= blocks_of(ev.skip(i as int)));
        }
        return r;
    }
    match &entries[i] {
        BacktraceEntry::Message(m) => {
            let mut text = render_message(m);
            let ghost mtext = message_text(m@);
            let mut j: usize = i + 1;
            let ghost mut acc: Seq<LocationView> = Seq::empty();
            let mut scanning = true;
            proof {
                assert(ev[i as int] == entries@[i as int]@);
                assert(text@ =~= mtext + locs_text(acc));
            }
            while scanning
                invariant
                    i < ev.len(),
                    i + 1 <= j <= ev.len(),
                    ev == entries_view(entries@),
                    entry_views_wf(ev),
                    mtext == message_text(ev[i as int]->Message_0),
                    ev[i as int] is Message,
                    text@ == mtext + locs_text(acc),
                    acc + leading_locs(ev.skip(j as int)) == leading_locs(ev.skip(i + 1)),
                    after_leading_locs(ev.skip(j as int)) == after_leading_locs(ev.skip(i + 1)),
                    !scanning ==> (j == ev.len() || !(ev[j as int] is Locations)),
                decreases ev.len() - j + (if scanning { 1int } else { 0int }),
            {
                if j < entries.len() {
                    match &entries[j] {
                        BacktraceEntry::Locations(d) => {
                            proof {
                                assert(ev[j as int] == entries@[j as int]@);
                                assert(locations_entry_wf(ev[j as int]->Locations_0));
                                assert(d@[0] == d.first@);
                            }
                            append_at_location(&mut text, &d.first);
                            if !d.second.is_uninit() {
                                append_at_location(&mut text, &d.second);
                            }
                            proof {
                                assert(locs_text(Seq::<LocationView>::empty())
                                    == Seq::<char>::empty());
                                if d.second@.is_uninit() {
                                    assert(d@ =~= seq![d.first@]);
                                    assert(d@.skip(1) =~= Seq::<LocationView>::empty());
                                    assert(locs_text(d@) == at_prefix() + d@[0].text()
                                        + locs_text(d@.skip(1)));
                                    assert(locs_text(d@) =~= at_prefix() + d.first@.text());
                                } else {
                                    assert(d@ =~= seq![d.first@, d.second@]);
                                    assert(d@.skip(1) =~= seq![d.second@]);
                                    assert(seq![d.second@].skip(1) =~= Seq::<
                                        LocationView,
                                    >::empty());
                                    assert(locs_text(seq![d.second@]) == at_prefix()
                                        + seq![d.second@][0].text() + locs_text(
                                        seq![d.second@].skip(1),
                                    ));
                                    assert(locs_text(seq![d.second@]) =~= at_prefix()
                                        + d.second@.text());
                                    assert(locs_text(d@) == at_prefix() + d@[0].text()
                                        + locs_text(d@.skip(1)));
                                    assert(locs_text(d@) =~= at_prefix() + d.first@.text()
                                        + at_prefix() + d.second@.text());
                                }
                                lemma_locs_text_concat(acc, d@);
                                assert(text@ =~= mtext + locs_text(acc + d@));
                                // the leading run loses its first entry
                                assert(ev.skip(j as int)[0] == ev[j as int]);
                                assert(ev.skip(j as int).skip(1) =~= ev.skip(j + 1));
                                assert(leading_locs(ev.skip(j as int)) == d@ + leading_locs(
                                    ev.skip(j + 1),
                                ));
                                assert((acc + d@) + leading_locs(ev.skip(j + 1)) =~= acc
                                    + leading_locs(ev.skip(j as int)));
                                assert(after_leading_locs(ev.skip(j as int))
                                    == after_leading_locs(ev.skip(j + 1)));
                                acc = acc + d@;
                            }
                            j = j + 1;
                        },
                        BacktraceEntry::Message(_) => {
                            proof {
                                assert(ev[j as int] == entries@[j as int]@);
                            }
                            scanning = false;
                        },
                    }
                } else {
                    scanning = false;
                }
            }
            proof {
                assert(leading_locs(ev.skip(j as int)) =~= Seq::<LocationView>::empty());
                assert(acc =~= leading_locs(ev.skip(i + 1)));
                assert(after_leading_locs(ev.skip(j as int)) =~= ev.skip(j as int));
            }
            let mut rest = blocks_from(entries, j);
            rest.insert(0, text);
            proof {
                assert(ev.skip(i as int)[0] == ev[i as int]);
                assert(ev.skip(i as int).skip(1) =~= ev.skip(i + 1));
                assert(blocks_of(ev.skip(i as int)) == seq![mtext + locs_text(
                    leading_locs(ev.skip(i + 1)),
                )] + blocks_of(after_leading_locs(ev.skip(i + 1))));
                assert(strings_view(rest@) =~= blocks_of(ev.skip(i as int)));
            }
            rest
        },
        BacktraceEntry::Locations(_) => {
            let r = blocks_from(entries, i + 1);
            proof {
                assert(ev[i as int] == entries@[i as int]@);
                assert(ev.skip(i as int)[0] == ev[i as int]);
                assert(ev.skip(i as int).skip(1) =~= ev.skip(i + 1));
                assert(blocks_of(ev.skip(i as int)) == blocks_of(ev.skip(i + 1)));
            }
            r
        },
    }
}

fn reversed_lines(v: Vec<String>) -> (r: Vec<String>)
    ensures
        r@ == v@.reverse(),
{
    let ghost v0 = v@;
    let mut v = v;
    let mut out: Vec<String> = Vec::new();
    proof {
        assert(out@ =~= v0.skip(v@.len() as int).reverse());
    }
    while v.len() > 0
        invariant
            v@.len() <= v0.len(),
            v@ =~= v0.take(v@.len() as int),
            out@ =~= v0.skip(v@.len() as int).reverse(),
        decreases v@.len(),
    {
        let ghost k = v@.len() as int;
        match v.pop() {
            Some(x) => {
                proof {
                    assert(x == v0.take(k).last());
                    assert(x == v0[k - 1]);
                    assert(v0.take(k).drop_last() =~= v0.take(k - 1));
                    assert(v@ =~= v0.take(k - 1));
                }
                out.push(x);
                proof {
                    assert(v0.skip(k - 1).reverse() =~= v0.skip(k).reverse().push(v0[k - 1]));
                    assert(out@ =~= v0.skip(v@.len() as int).reverse());
                }
            },
            None => {},
        }
    }
    proof {
        assert(v0.skip(0).reverse() =~= v0.reverse());
    }
    out
}

/// Renders the backtrace as a stack of lines, innermost error first.
pub fn extract_error_stack(backtrace: &Backtrace) -> (r: Vec<String>)
    requires
        backtrace.wf(),
    ensures
        strings_view(r@) =~= full_stack(backtrace@).reverse(),
{
    let (head, entries) = backtrace.head_and_entries();
    let ghost off: int = if has_head(backtrace@) {
        1int
    } else {
        0int
    };
    proof {
        assert(backtrace@.skip(0) =~= backtrace@);
        assert(entries_view(entries@) =~= backtrace@.skip(off));
        assert forall|i: int|
            0 <= i < entries_view(entries@).len() && entries_view(entries@)[i] is Locations
                implies locations_entry_wf(
            #[trigger] entries_view(entries@)[i]->Locations_0,
        ) by {
            assert(entries_view(entries@)[i] == backtrace@[i + off]);
        }
    }
    let blocks = blocks_from(entries, 0);
    proof {
        assert(entries_view(entries@).skip(0) =~= entries_view(entries@));
    }
    let stack: Vec<String> = match head {
        Some(m) => {
            let mut s: Vec<String> = Vec::new();
            s.push(render_message(m));
            let mut b = blocks;
            s.append(&mut b);
            s
        },
        None => blocks,
    };
    proof {
        assert(strings_view(stack@) =~= full_stack(backtrace@));
    }
    let r = reversed_lines(stack);
    proof {
        assert(strings_view(r@) =~= strings_view(stack@).reverse());
    }
    r
}

/// The stack's lines joined by newlines.
pub open spec fn join_lines(s: Seq<Seq<char>>) -> Seq<char>
    decreases s.len(),
{
    if s.len() == 0 {
        Seq::empty()
    } else if s.len() == 1 {
        s[0]
    } else {
        s[0] + seq!['\n'] + join_lines(s.skip(1))
    }
}

proof fn lemma_join_lines_snoc(s: Seq<Seq<char>>, x: Seq<char>)
    requires
        s.len() > 0,
    ensures
        join_lines(s.push(x)) == join_lines(s) + seq!['\n'] + x,
    decreases s.len(),
{
    if s.len() == 1 {
        assert(s.push(x).skip(1) =~= seq![x]);
        assert(join_lines(seq![x]) == x);
        assert(join_lines(s.push(x)) == s.push(x)[0] + seq!['\n'] + join_lines(
            s.push(x).skip(1),
        ));
        assert(join_lines(s.push(x)) =~= s[0] + seq!['\n'] + x);
    } else {
        assert(s.push(x).skip(1) =~= s.skip(1).push(x));
        lemma_join_lines_snoc(s.skip(1), x);
        assert(join_lines(s.push(x)) == s.push(x)[0] + seq!['\n'] + join_lines(
            s.push(x).skip(1),
        ));
        assert(join_lines(s.push(x)) =~= join_lines(s) + seq!['\n'] + x);
    }
}

/// Renders the backtrace as one newline-separated message.
pub fn extract_error_message(backtrace: &Backtrace) -> (r: String)
    requires
        backtrace.wf(),
    ensures
        r@ == join_lines(full_stack(backtrace@).reverse()),
{
    proof {
        reveal_strlit("\n");
    }
    let stack = extract_error_stack(backtrace);
    let ghost sv = strings_view(stack@);
    let mut buf = String::new();
    let mut k: usize = 0;
    while k < stack.len()
        invariant
            0 <= k <= stack@.len(),
            sv == strings_view(stack@),
            "\n"@ == seq!['\n'],
            buf@ == join_lines(sv.take(k as int)),
        decreases stack@.len() - k,
    {
        if k > 0 {
            buf.append("\n");
        }
        buf.append(stack[k].as_str());
        proof {
            assert(stack[k as int]@ == sv[k as int]);
            if k > 0 {
                lemma_join_lines_snoc(sv.take(k as int), sv[k as int]);
            } else {
                assert(join_lines(seq![sv[0]]) =~= sv[0]);
                assert(buf@ =~= sv[0]);
            }
            assert(sv.take(k as int).push(sv[k as int]) =~= sv.take(k + 1));
        }
        k = k + 1;
    }
    proof {
        assert(sv.take(sv.len() as int) =~= sv);
    }
    buf
}

} // verus!

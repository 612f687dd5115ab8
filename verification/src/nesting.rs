//! Element nesting: which closing events close an item, and how many
//! articles a sequence of events gives.

use vstd::prelude::*;
use crate::date::UtcOffset;
use crate::markup::Markup;
use crate::parser::{lemma_run_push, run};
use crate::tag::{role_of, Role};

verus! {

/// The roles of the elements that are open after `events`, outermost first.
/// A closing event with nothing open is passed over.
pub open spec fn context(events: Seq<Markup>) -> Seq<Role>
    decreases events.len(),
{
    if events.len() == 0 {
        Seq::empty()
    } else {
        let before = context(events.drop_last());
        match events.last() {
            Markup::Open(name) => before.push(role_of(name)),
            Markup::Close => if before.len() > 0 {
                before.drop_last()
            } else {
                before
            },
            _ => before,
        }
    }
}

/// Whether the event at `i` closes an item: it is a closing event, and the
/// element it closes, the innermost one open at that point, is an item.
pub open spec fn closes_item(events: Seq<Markup>, i: int) -> bool {
    &&& 0 <= i < events.len()
    &&& events[i] is Close
    &&& context(events.take(i)).len() > 0
    &&& context(events.take(i)).last() is Item
}

/// The number of events in `events` that close an item.
pub open spec fn item_closes(events: Seq<Markup>) -> nat
    decreases events.len(),
{
    if events.len() == 0 {
        0
    } else {
        item_closes(events.drop_last()) + if closes_item(events, events.len() - 1) {
            1nat
        } else {
            0nat
        }
    }
}

/// Opening events minus closing events.
pub open spec fn depth(events: Seq<Markup>) -> int
    decreases events.len(),
{
    if events.len() == 0 {
        0
    } else {
        depth(events.drop_last()) + match events.last() {
            Markup::Open(_) => 1int,
            Markup::Close => -1int,
            _ => 0int,
        }
    }
}

/// No closing event in `events` lacks an opening one before it in `events`.
pub open spec fn closes_only_its_own(events: Seq<Markup>) -> bool {
    forall|k: int| 0 <= k <= events.len() ==> depth(#[trigger] events.take(k)) >= 0
}

/// `events` closes only what it opened, and all of it.
pub open spec fn balanced(events: Seq<Markup>) -> bool {
    closes_only_its_own(events) && depth(events) == 0
}

/// The parser's stack is the element context.
pub proof fn lemma_stack_is_context(events: Seq<Markup>, offset: UtcOffset)
    ensures
        run(events, offset).stack == context(events),
    decreases events.len(),
{
    if events.len() > 0 {
        lemma_stack_is_context(events.drop_last(), offset);
    }
}

/// The number of articles emitted over any sequence of events is the number
/// of its closing events that close an item.
pub proof fn lemma_emitted_count(events: Seq<Markup>, offset: UtcOffset)
    ensures
        run(events, offset).emitted.len() == item_closes(events),
    decreases events.len(),
{
    if events.len() > 0 {
        let before = events.drop_last();
        lemma_emitted_count(before, offset);
        lemma_stack_is_context(before, offset);
        assert(events.take(events.len() - 1) =~= before);
    }
}

/// An article is emitted exactly at the events that close an item, and it is
/// the article current at that event; at any other event the emitted
/// articles stay as they are.
pub proof fn lemma_emitted_at(events: Seq<Markup>, event: Markup, offset: UtcOffset)
    ensures
        closes_item(events.push(event), events.len() as int) ==> run(
            events.push(event),
            offset,
        ).emitted == run(events, offset).emitted.push(run(events, offset).current),
        !closes_item(events.push(event), events.len() as int) ==> run(
            events.push(event),
            offset,
        ).emitted == run(events, offset).emitted,
{
    lemma_run_push(events, event, offset);
    lemma_stack_is_context(events, offset);
    assert(events.push(event).take(events.len() as int) =~= events);
}

/// A prefix of a sequence that closes only its own elements does so too.
pub proof fn lemma_prefix_closes_only_its_own(events: Seq<Markup>, n: int)
    requires
        closes_only_its_own(events),
        0 <= n <= events.len(),
    ensures
        closes_only_its_own(events.take(n)),
        depth(events.take(n)) >= 0,
{
    assert forall|k: int| 0 <= k <= events.take(n).len() implies depth(
        #[trigger] events.take(n).take(k),
    ) >= 0 by {
        assert(events.take(n).take(k) =~= events.take(k));
    }
}

/// Where events close only their own elements, as many elements are open
/// after them as the events opened and did not close.
pub proof fn lemma_context_len_is_depth(events: Seq<Markup>)
    requires
        closes_only_its_own(events),
    ensures
        context(events).len() == depth(events),
    decreases events.len(),
{
    if events.len() > 0 {
        let n = events.len() - 1;
        lemma_prefix_closes_only_its_own(events, n);
        assert(events.take(n) =~= events.drop_last());
        lemma_context_len_is_depth(events.drop_last());
        assert(events.take(events.len() as int) =~= events);
    }
}

/// Events that close only their own elements leave the elements that were
/// open before them open, and add their own.
pub proof fn lemma_context_concat(before: Seq<Markup>, events: Seq<Markup>)
    requires
        closes_only_its_own(events),
    ensures
        context(before + events) == context(before) + context(events),
    decreases events.len(),
{
    if events.len() == 0 {
        assert(before + events =~= before);
        assert(context(before) + context(events) =~= context(before));
    } else {
        let n = events.len() - 1;
        let init = events.drop_last();
        lemma_prefix_closes_only_its_own(events, n);
        assert(events.take(n) =~= init);
        lemma_context_concat(before, init);
        lemma_context_len_is_depth(init);
        assert(events.take(events.len() as int) =~= events);
        assert((before + events).drop_last() =~= before + init);
        assert((before + events).last() == events.last());
        match events.last() {
            Markup::Open(name) => {
                assert(context(before + events) =~= context(before) + context(events));
            },
            Markup::Close => {
                assert(depth(init) >= 1);
                assert(context(before + events) =~= context(before) + context(events));
            },
            _ => {},
        }
    }
}

/// A balanced run of events leaves the element context as it found it.
pub proof fn lemma_balanced_keeps_context(before: Seq<Markup>, events: Seq<Markup>)
    requires
        balanced(events),
    ensures
        context(before + events) == context(before),
{
    lemma_context_concat(before, events);
    lemma_context_len_is_depth(events);
    assert(context(before) + context(events) =~= context(before));
}

/// Events that close only their own elements close as many items after any
/// other events as they do alone.
pub proof fn lemma_item_closes_concat(before: Seq<Markup>, events: Seq<Markup>)
    requires
        closes_only_its_own(events),
    ensures
        item_closes(before + events) == item_closes(before) + item_closes(events),
    decreases events.len(),
{
    if events.len() == 0 {
        assert(before + events =~= before);
    } else {
        let n = events.len() - 1;
        let init = events.drop_last();
        let whole = before + events;
        lemma_prefix_closes_only_its_own(events, n);
        assert(events.take(n) =~= init);
        lemma_item_closes_concat(before, init);
        assert(whole.drop_last() =~= before + init);
        assert(whole.take(whole.len() - 1) =~= before + init);
        assert(whole.last() == events.last());
        lemma_context_concat(before, init);
        lemma_context_len_is_depth(init);
        assert(events.take(events.len() as int) =~= events);
        if events.last() is Close {
            assert(depth(init) >= 1);
            assert((context(before) + context(init)).last() == context(init).last());
        }
        assert(closes_item(whole, whole.len() - 1) == closes_item(events, n));
    }
}

/// What was emitted stays emitted: further events only add articles after
/// those already there.
pub proof fn lemma_emitted_grows(before: Seq<Markup>, events: Seq<Markup>, offset: UtcOffset)
    ensures
        run(before, offset).emitted.is_prefix_of(run(before + events, offset).emitted),
    decreases events.len(),
{
    if events.len() == 0 {
        assert(before + events =~= before);
    } else {
        let init = events.drop_last();
        lemma_emitted_grows(before, init, offset);
        assert(before + events =~= (before + init).push(events.last()));
        lemma_run_push(before + init, events.last(), offset);
    }
}

/// A well-formed item block gives one article: after an opening item element
/// and a balanced run of events inside it, the closing event emits the
/// current article and nothing else changes in what was emitted.
pub proof fn lemma_item_block_emits_one(
    before: Seq<Markup>,
    name: Seq<char>,
    inside: Seq<Markup>,
    offset: UtcOffset,
)
    requires
        role_of(name) is Item,
        balanced(inside),
    ensures
        ({
            let open = before.push(Markup::Open(name)) + inside;
            let closed = open.push(Markup::Close);
            &&& run(closed, offset).emitted == run(open, offset).emitted.push(
                run(open, offset).current,
            )
            &&& run(closed, offset).stack == run(before, offset).stack
            &&& item_closes(closed) == item_closes(before) + item_closes(inside) + 1
        }),
{
    let opened = before.push(Markup::Open(name));
    let open = opened + inside;
    let closed = open.push(Markup::Close);
    lemma_balanced_keeps_context(opened, inside);
    assert(opened.drop_last() =~= before);
    assert(context(opened) == context(before).push(Role::Item));
    assert(closed.take(open.len() as int) =~= open);
    assert(closes_item(closed, open.len() as int));
    lemma_emitted_at(open, Markup::Close, offset);
    lemma_stack_is_context(closed, offset);
    lemma_stack_is_context(before, offset);
    assert(closed.drop_last() =~= open);
    assert(context(closed) =~= context(before));
    lemma_item_closes_concat(opened, inside);
    assert(opened.take(opened.len() - 1) =~= before);
    assert(!closes_item(opened, opened.len() - 1));
}

/// No event in `events` opens an item.
pub open spec fn opens_no_item(events: Seq<Markup>) -> bool {
    forall|i: int|
        0 <= i < events.len() ==> (#[trigger] events[i] matches Markup::Open(name) ==> !(role_of(
            name,
        ) is Item))
}

/// Events that open no item still open none without the last of them.
pub proof fn lemma_prefix_opens_no_item(events: Seq<Markup>)
    requires
        opens_no_item(events),
        events.len() > 0,
    ensures
        opens_no_item(events.drop_last()),
{
    let init = events.drop_last();
    assert forall|i: int| 0 <= i < init.len() implies (#[trigger] init[i] matches Markup::Open(
        name,
    ) ==> !(role_of(name) is Item)) by {
        assert(init[i] == events[i]);
    }
}

/// Events that open no item leave no item open.
pub proof fn lemma_context_without_items(events: Seq<Markup>)
    requires
        opens_no_item(events),
    ensures
        forall|j: int| 0 <= j < context(events).len() ==> !(#[trigger] context(events)[j] is Item),
    decreases events.len(),
{
    if events.len() > 0 {
        let init = events.drop_last();
        lemma_prefix_opens_no_item(events);
        lemma_context_without_items(init);
        assert(events.last() == events[events.len() - 1]);
    }
}

/// Events that open no item close none.
pub proof fn lemma_no_item_opened_none_closed(events: Seq<Markup>)
    requires
        opens_no_item(events),
    ensures
        item_closes(events) == 0,
    decreases events.len(),
{
    if events.len() > 0 {
        let n = events.len() - 1;
        let init = events.drop_last();
        lemma_prefix_opens_no_item(events);
        lemma_no_item_opened_none_closed(init);
        assert(events.take(n) =~= init);
        lemma_context_without_items(init);
    }
}

/// An item that opens and never closes gives no article: where the events
/// after its opening close only elements opened after it, the articles
/// emitted are those emitted before it, followed by one for each item that
/// those later events themselves open and close; so where they open no
/// item, nothing is added at all.
pub proof fn lemma_unclosed_item_emits_nothing(
    before: Seq<Markup>,
    name: Seq<char>,
    after: Seq<Markup>,
    offset: UtcOffset,
)
    requires
        role_of(name) is Item,
        closes_only_its_own(after),
    ensures
        ({
            let all = before.push(Markup::Open(name)) + after;
            &&& run(before, offset).emitted.is_prefix_of(run(all, offset).emitted)
            &&& run(all, offset).emitted.len() == run(before, offset).emitted.len() + item_closes(
                after,
            )
            &&& opens_no_item(after) ==> run(all, offset).emitted == run(before, offset).emitted
        }),
{
    let opened = before.push(Markup::Open(name));
    let all = opened + after;
    assert(all =~= before + (seq![Markup::Open(name)] + after));
    lemma_emitted_grows(before, seq![Markup::Open(name)] + after, offset);
    lemma_emitted_count(all, offset);
    lemma_emitted_count(before, offset);
    lemma_item_closes_concat(opened, after);
    assert(opened.drop_last() =~= before);
    assert(!closes_item(opened, opened.len() - 1));
    if opens_no_item(after) {
        lemma_no_item_opened_none_closed(after);
        assert(run(all, offset).emitted =~= run(before, offset).emitted);
    }
}

} // verus!

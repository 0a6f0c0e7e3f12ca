//! Which entries are listed, and in which order.

use vstd::prelude::*;
use crate::entry::{DirectoryEntry, EntryModel};
use crate::options::{ConfigModel, RunConfig};
use crate::order::{
    comes_no_later, is_arranged, keeps_tied_order, law_arrangement_is_unique, sort_entries,
    tied_with, Grouping,
};

verus! {

/// Whether the entry is listed: hidden entries only where they are asked for.
pub open spec fn is_listed(e: EntryModel, show_hidden: bool) -> bool {
    show_hidden || !e.is_hidden()
}

/// The entries that are listed.
pub open spec fn listed(show_hidden: bool) -> spec_fn(EntryModel) -> bool {
    |e: EntryModel| is_listed(e, show_hidden)
}

/// Whether `shown` is the listing of `children` under `config`: the children
/// that are listed, in the order in which they came if no grouping is asked
/// for, and else in listing order, entries that tie in the order in which
/// they came.
pub open spec fn is_listing(
    children: Seq<EntryModel>,
    config: ConfigModel,
    shown: Seq<EntryModel>,
) -> bool {
    let kept = children.filter(listed(config.all));
    match config.grouping() {
        None => shown == kept,
        Some(grouping) => {
            &&& is_arranged(shown, grouping)
            &&& keeps_tied_order(kept, shown)
            &&& shown.to_multiset() == kept.to_multiset()
        },
    }
}

/// Drops the hidden entries, unless they are asked for. The others stay in
/// their order.
pub fn retain_listed(entries: Vec<DirectoryEntry>, show_hidden: bool) -> (kept: Vec<
    DirectoryEntry,
>)
    ensures
        kept.deep_view() == entries.deep_view().filter(listed(show_hidden)),
{
    let ghost input = entries.deep_view();
    let ghost keep = listed(show_hidden);
    let mut kept: Vec<DirectoryEntry> = Vec::new();
    proof {
        reveal(Seq::filter);
        assert(input.take(0).filter(keep) =~= kept.deep_view());
    }
    for entry in it: entries
        invariant
            keep == listed(show_hidden),
            it.seq().len() == input.len(),
            forall|k: int| 0 <= k < input.len() ==> (#[trigger] it.seq()[k])@ == input[k],
            kept.deep_view() == input.take(it.index() as int).filter(keep),
    {
        let ghost before = kept.deep_view();
        let ghost done = input.take(it.index() as int);
        proof {
            assert(input.take(it.index() + 1) =~= done.push(entry@));
            done.lemma_filter_push(entry@, keep);
        }
        if show_hidden || !entry.is_hidden() {
            kept.push(entry);
            assert(kept.deep_view() =~= before.push(entry@));
        }
    }
    assert(input.take(input.len() as int) =~= input);
    kept
}

/// The entries to list of the children of a directory, in the order in
/// which they are listed.
pub fn list_entries(children: Vec<DirectoryEntry>, config: &RunConfig) -> (shown: Vec<
    DirectoryEntry,
>)
    ensures
        is_listing(children.deep_view(), config@, shown.deep_view()),
{
    let kept = retain_listed(children, config.all);
    match config.grouping() {
        None => kept,
        Some(grouping) => sort_entries(kept, grouping),
    }
}

/// Where hidden entries are asked for, every child is listed.
pub proof fn law_all_lists_every_child(children: Seq<EntryModel>)
    ensures
        children.filter(listed(true)) == children,
    decreases children.len(),
{
    reveal(Seq::filter);
    if children.len() > 0 {
        law_all_lists_every_child(children.drop_last());
        assert(children.drop_last().push(children.last()) =~= children);
    }
}

/// Of the children, exactly those that are not hidden are listed where hidden
/// entries are not asked for, each as often as it came.
pub proof fn law_hidden_children_left_out(children: Seq<EntryModel>, e: EntryModel)
    ensures
        children.filter(listed(false)).to_multiset().count(e) == if e.is_hidden() {
            0
        } else {
            children.to_multiset().count(e)
        },
    decreases children.len(),
{
    broadcast use vstd::seq_lib::group_to_multiset_ensures;

    reveal(Seq::filter);
    if children.len() > 0 {
        let front = children.drop_last();
        let last = children.last();
        law_hidden_children_left_out(front, e);
        assert(front.push(last) =~= children);
        front.lemma_filter_push(last, listed(false));
    }
}

/// With no grouping, the listing is the children that are listed, each once
/// for each time it came, in the order in which they came.
pub proof fn law_plain_listing_keeps_order(
    children: Seq<EntryModel>,
    config: ConfigModel,
    shown: Seq<EntryModel>,
)
    requires
        config.grouping() is None,
        is_listing(children, config, shown),
    ensures
        shown == children.filter(listed(config.all)),
{
}

/// Keeping what passes one test and of that what passes another gives the
/// same as the two tests in the other order.
proof fn lemma_filter_commutes(
    s: Seq<EntryModel>,
    p: spec_fn(EntryModel) -> bool,
    q: spec_fn(EntryModel) -> bool,
)
    ensures
        s.filter(p).filter(q) == s.filter(q).filter(p),
    decreases s.len(),
{
    reveal(Seq::filter);
    if s.len() > 0 {
        let front = s.drop_last();
        let last = s.last();
        lemma_filter_commutes(front, p, q);
        assert(front.push(last) =~= s);
        front.lemma_filter_push(last, p);
        front.lemma_filter_push(last, q);
        front.filter(p).lemma_filter_push(last, q);
        front.filter(q).lemma_filter_push(last, p);
    }
}

/// What is kept of entries in listing order is in listing order.
proof fn lemma_filter_arranged(
    s: Seq<EntryModel>,
    keep: spec_fn(EntryModel) -> bool,
    grouping: Grouping,
)
    requires
        is_arranged(s, grouping),
    ensures
        is_arranged(s.filter(keep), grouping),
    decreases s.len(),
{
    reveal(Seq::filter);
    if s.len() > 0 {
        let front = s.drop_last();
        let last = s.last();
        assert forall|i: int, j: int| 0 <= i < j < front.len() implies comes_no_later(
            #[trigger] front[i],
            #[trigger] front[j],
            grouping,
        ) by {
            assert(comes_no_later(s[i], s[j], grouping));
        }
        lemma_filter_arranged(front, keep, grouping);
        assert(front.push(last) =~= s);
        front.lemma_filter_push(last, keep);
        let kept = front.filter(keep);
        if keep(last) {
            let more = kept.push(last);
            assert forall|i: int, j: int| 0 <= i < j < more.len() implies comes_no_later(
                #[trigger] more[i],
                #[trigger] more[j],
                grouping,
            ) by {
                if j == kept.len() {
                    assert(kept.contains(kept[i]));
                    front.lemma_filter_contains_rev(keep, kept[i]);
                    let k = choose|k: int| 0 <= k < front.len() && front[k] == kept[i];
                    assert(comes_no_later(s[k], s[s.len() - 1], grouping));
                } else {
                    assert(comes_no_later(kept[i], kept[j], grouping));
                }
            }
        }
    }
}

/// It makes no difference whether the hidden entries are dropped before the
/// entries are put in listing order or after: what is left of all children
/// in listing order once the hidden ones are dropped is the listing.
pub proof fn law_hidden_dropped_before_or_after(
    children: Seq<EntryModel>,
    config: ConfigModel,
    arranged: Seq<EntryModel>,
    shown: Seq<EntryModel>,
)
    requires
        config.grouping() is Some,
        is_arranged(arranged, config.grouping().unwrap()),
        keeps_tied_order(children, arranged),
        is_listing(children, config, shown),
    ensures
        shown == arranged.filter(listed(config.all)),
{
    let grouping = config.grouping().unwrap();
    let keep = listed(config.all);
    let kept = children.filter(keep);
    let late = arranged.filter(keep);
    lemma_filter_arranged(arranged, keep, grouping);
    assert forall|e: EntryModel| #[trigger]
        late.filter(tied_with(e)) == kept.filter(tied_with(e)) by {
        lemma_filter_commutes(arranged, keep, tied_with(e));
        lemma_filter_commutes(children, keep, tied_with(e));
        assert(arranged.filter(tied_with(e)) == children.filter(tied_with(e)));
    }
    law_arrangement_is_unique(kept, shown, late, grouping);
}

} // verus!

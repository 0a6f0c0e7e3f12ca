//! The order in which grouped entries are listed.

use vstd::prelude::*;
use vstd::seq_lib::{to_multiset_build, to_multiset_insert};
use vstd::string::*;
use crate::entry::{DirectoryEntry, EntryModel};
use crate::text::chars_of;

verus! {

/// Which group of entries is listed first.
#[derive(Clone, Copy, Debug, PartialEq, Eq, Structural)]
pub enum Grouping {
    /// Directories come before everything else.
    DirectoriesFirst,
    /// Directories come after everything else.
    DirectoriesLast,
}

/// Whether the name `a` comes before the name `b` or equals it, character by
/// character in the order of the code points; a name comes before every
/// longer name that begins with it.
pub open spec fn name_le(a: Seq<char>, b: Seq<char>) -> bool
    decreases a.len(),
{
    if a.len() == 0 {
        true
    } else if b.len() == 0 {
        false
    } else if a[0] != b[0] {
        a[0] < b[0]
    } else {
        name_le(a.drop_first(), b.drop_first())
    }
}

/// Every name comes before itself or equals it.
pub proof fn lemma_name_le_reflexive(a: Seq<char>)
    ensures
        name_le(a, a),
    decreases a.len(),
{
    if a.len() > 0 {
        lemma_name_le_reflexive(a.drop_first());
    }
}

/// Of two names, one comes before the other or equals it.
pub proof fn lemma_name_le_total(a: Seq<char>, b: Seq<char>)
    ensures
        name_le(a, b) || name_le(b, a),
    decreases a.len(),
{
    if a.len() > 0 && b.len() > 0 && a[0] == b[0] {
        lemma_name_le_total(a.drop_first(), b.drop_first());
    }
}

/// Two names that each come before the other or equal it are the same name.
pub proof fn lemma_name_le_antisymmetric(a: Seq<char>, b: Seq<char>)
    requires
        name_le(a, b),
        name_le(b, a),
    ensures
        a == b,
    decreases a.len(),
{
    if a.len() > 0 && b.len() > 0 {
        lemma_name_le_antisymmetric(a.drop_first(), b.drop_first());
        assert(a =~= seq![a[0]] + a.drop_first());
        assert(b =~= seq![b[0]] + b.drop_first());
    } else {
        assert(a =~= b);
    }
}

/// The order of names is transitive.
pub proof fn lemma_name_le_transitive(a: Seq<char>, b: Seq<char>, c: Seq<char>)
    requires
        name_le(a, b),
        name_le(b, c),
    ensures
        name_le(a, c),
    decreases a.len(),
{
    if a.len() > 0 && b.len() > 0 && c.len() > 0 && a[0] == b[0] && b[0] == c[0] {
        lemma_name_le_transitive(a.drop_first(), b.drop_first(), c.drop_first());
    }
}

/// Compares two names.
pub fn name_comes_no_later(a: &str, b: &str) -> (r: bool)
    ensures
        r == name_le(a@, b@),
{
    let left = chars_of(a);
    let right = chars_of(b);
    let mut i: usize = 0;
    assert(a@.skip(0) =~= a@ && b@.skip(0) =~= b@);
    while i < left.len() && i < right.len()
        invariant
            left@ == a@,
            right@ == b@,
            i <= left.len(),
            i <= right.len(),
            name_le(a@, b@) == name_le(a@.skip(i as int), b@.skip(i as int)),
        decreases left.len() - i,
    {
        let p = left[i];
        let q = right[i];
        proof {
            assert(a@.skip(i as int).drop_first() =~= a@.skip(i + 1));
            assert(b@.skip(i as int).drop_first() =~= b@.skip(i + 1));
        }
        if p != q {
            return p < q;
        }
        i = i + 1;
    }
    i == left.len()
}

/// Whether the entry belongs to the group that is listed first.
pub open spec fn leads(e: EntryModel, grouping: Grouping) -> bool {
    match grouping {
        Grouping::DirectoriesFirst => e.is_directory(),
        Grouping::DirectoriesLast => !e.is_directory(),
    }
}

/// Whether `a` may stand before `b` in the listing: it belongs to the
/// group that is listed first and `b` does not, or both belong to the same
/// group and the name of `a` comes before that of `b` or equals it.
pub open spec fn comes_no_later(a: EntryModel, b: EntryModel, grouping: Grouping) -> bool {
    if leads(a, grouping) == leads(b, grouping) {
        name_le(a.name, b.name)
    } else {
        leads(a, grouping)
    }
}

/// Whether the order does not tell `a` and `b` apart: they belong to the
/// same group and have the same name.
pub open spec fn ties(a: EntryModel, b: EntryModel) -> bool {
    a.is_directory() == b.is_directory() && a.name == b.name
}

/// The entries that tie with `e`.
pub open spec fn tied_with(e: EntryModel) -> spec_fn(EntryModel) -> bool {
    |x: EntryModel| ties(e, x)
}

/// Whether the entries stand in listing order: each may stand before all
/// that follow it.
pub open spec fn is_arranged(entries: Seq<EntryModel>, grouping: Grouping) -> bool {
    forall|i: int, j: int|
        0 <= i < j < entries.len() ==> comes_no_later(#[trigger] entries[i], #[trigger] entries[j], grouping)
}

/// Whether entries that tie stand in `after` in the order in which they stand
/// in `before`: for each entry, those that tie with it are the same in both,
/// one after the other.
pub open spec fn keeps_tied_order(before: Seq<EntryModel>, after: Seq<EntryModel>) -> bool {
    forall|e: EntryModel| #[trigger] after.filter(tied_with(e)) == before.filter(tied_with(e))
}

/// Of two entries, one may stand before the other.
pub proof fn lemma_comes_no_later_total(a: EntryModel, b: EntryModel, grouping: Grouping)
    ensures
        comes_no_later(a, b, grouping) || comes_no_later(b, a, grouping),
{
    lemma_name_le_total(a.name, b.name);
}

/// The listing order is transitive.
pub proof fn lemma_comes_no_later_transitive(
    a: EntryModel,
    b: EntryModel,
    c: EntryModel,
    grouping: Grouping,
)
    requires
        comes_no_later(a, b, grouping),
        comes_no_later(b, c, grouping),
    ensures
        comes_no_later(a, c, grouping),
{
    if leads(a, grouping) == leads(b, grouping) && leads(b, grouping) == leads(c, grouping) {
        lemma_name_le_transitive(a.name, b.name, c.name);
    }
}

/// Two entries tie exactly if each may stand before the other.
pub proof fn lemma_ties_both_ways(a: EntryModel, b: EntryModel, grouping: Grouping)
    ensures
        ties(a, b) <==> (comes_no_later(a, b, grouping) && comes_no_later(b, a, grouping)),
{
    if comes_no_later(a, b, grouping) && comes_no_later(b, a, grouping) {
        lemma_name_le_antisymmetric(a.name, b.name);
    }
    if ties(a, b) {
        lemma_name_le_reflexive(a.name);
    }
}

/// With directories first, every directory stands before every entry
/// that is none.
pub proof fn law_directories_first(entries: Seq<EntryModel>, i: int, j: int)
    requires
        is_arranged(entries, Grouping::DirectoriesFirst),
        0 <= i < entries.len(),
        0 <= j < entries.len(),
        entries[i].is_directory(),
        !entries[j].is_directory(),
    ensures
        i < j,
{
    if j < i {
        assert(comes_no_later(entries[j], entries[i], Grouping::DirectoriesFirst));
    }
}

/// With directories last, every entry that is no directory stands before
/// every directory.
pub proof fn law_directories_last(entries: Seq<EntryModel>, i: int, j: int)
    requires
        is_arranged(entries, Grouping::DirectoriesLast),
        0 <= i < entries.len(),
        0 <= j < entries.len(),
        !entries[i].is_directory(),
        entries[j].is_directory(),
    ensures
        i < j,
{
    if j < i {
        assert(comes_no_later(entries[j], entries[i], Grouping::DirectoriesLast));
    }
}

/// Whichever group comes first, within a group the names never descend.
pub proof fn law_names_ascend_within_group(
    entries: Seq<EntryModel>,
    grouping: Grouping,
    i: int,
    j: int,
)
    requires
        is_arranged(entries, grouping),
        0 <= i < j < entries.len(),
        entries[i].is_directory() == entries[j].is_directory(),
    ensures
        name_le(entries[i].name, entries[j].name),
{
    assert(comes_no_later(entries[i], entries[j], grouping));
}

/// Two listings in listing order in which the entries that tie stand alike
/// are the same listing.
pub proof fn lemma_arranged_alike(a: Seq<EntryModel>, b: Seq<EntryModel>, grouping: Grouping)
    requires
        is_arranged(a, grouping),
        is_arranged(b, grouping),
        forall|e: EntryModel| #[trigger] a.filter(tied_with(e)) == b.filter(tied_with(e)),
    ensures
        a == b,
    decreases a.len(),
{
    if a.len() == 0 || b.len() == 0 {
        if a.len() > 0 {
            let keep = tied_with(a[0]);
            a.lemma_filter_contains(keep, 0);
            b.lemma_filter_len(keep);
            assert(a.filter(keep) == b.filter(keep));
        }
        if b.len() > 0 {
            let keep = tied_with(b[0]);
            b.lemma_filter_contains(keep, 0);
            a.lemma_filter_len(keep);
            assert(a.filter(keep) == b.filter(keep));
        }
        assert(a =~= b);
    } else {
        let x = a[0];
        let y = b[0];
        let a_rest = a.drop_first();
        let b_rest = b.drop_first();
        assert(a =~= seq![x] + a_rest);
        assert(b =~= seq![y] + b_rest);
        // x stands somewhere in b, and y somewhere in a
        a.lemma_filter_contains(tied_with(x), 0);
        assert(a.filter(tied_with(x)) == b.filter(tied_with(x)));
        b.lemma_filter_contains_rev(tied_with(x), x);
        let m = choose|m: int| 0 <= m < b.len() && b[m] == x;
        b.lemma_filter_contains(tied_with(y), 0);
        assert(a.filter(tied_with(y)) == b.filter(tied_with(y)));
        a.lemma_filter_contains_rev(tied_with(y), y);
        let n = choose|n: int| 0 <= n < a.len() && a[n] == y;
        if m > 0 && n > 0 {
            assert(comes_no_later(b[0], b[m], grouping));
            assert(comes_no_later(a[0], a[n], grouping));
            lemma_ties_both_ways(x, y, grouping);
            a_rest.lemma_filter_prepend(x, tied_with(x));
            b_rest.lemma_filter_prepend(y, tied_with(x));
            assert(a.filter(tied_with(x))[0] == x);
            assert(b.filter(tied_with(x))[0] == y);
        }
        assert(x == y);
        assert forall|e: EntryModel| #[trigger]
            a_rest.filter(tied_with(e)) == b_rest.filter(tied_with(e)) by {
            let keep = tied_with(e);
            a_rest.lemma_filter_prepend(x, keep);
            b_rest.lemma_filter_prepend(x, keep);
            assert(a.filter(keep) == b.filter(keep));
            let head = if keep(x) {
                seq![x]
            } else {
                Seq::<EntryModel>::empty()
            };
            let u = a_rest.filter(keep);
            let v = b_rest.filter(keep);
            assert(head + u == head + v);
            assert(u.len() == v.len()) by {
                assert((head + u).len() == (head + v).len());
            }
            assert forall|k: int| 0 <= k < u.len() implies u[k] == v[k] by {
                assert((head + u)[head.len() + k] == (head + v)[head.len() + k]);
            }
            assert(u =~= v);
        }
        assert forall|i: int, j: int| 0 <= i < j < a_rest.len() implies comes_no_later(
            #[trigger] a_rest[i],
            #[trigger] a_rest[j],
            grouping,
        ) by {
            assert(comes_no_later(a[i + 1], a[j + 1], grouping));
        }
        assert forall|i: int, j: int| 0 <= i < j < b_rest.len() implies comes_no_later(
            #[trigger] b_rest[i],
            #[trigger] b_rest[j],
            grouping,
        ) by {
            assert(comes_no_later(b[i + 1], b[j + 1], grouping));
        }
        lemma_arranged_alike(a_rest, b_rest, grouping);
    }
}

/// The listing order of given entries is unique: two listings that are both in
/// listing order and both keep the order of the entries that tie are equal.
pub proof fn law_arrangement_is_unique(
    entries: Seq<EntryModel>,
    a: Seq<EntryModel>,
    b: Seq<EntryModel>,
    grouping: Grouping,
)
    requires
        is_arranged(a, grouping),
        is_arranged(b, grouping),
        keeps_tied_order(entries, a),
        keeps_tied_order(entries, b),
    ensures
        a == b,
{
    assert forall|e: EntryModel| #[trigger] a.filter(tied_with(e)) == b.filter(tied_with(e)) by {
        assert(a.filter(tied_with(e)) == entries.filter(tied_with(e)));
        assert(b.filter(tied_with(e)) == entries.filter(tied_with(e)));
    }
    lemma_arranged_alike(a, b, grouping);
}

/// Compares two entries.
pub fn entry_comes_no_later(a: &DirectoryEntry, b: &DirectoryEntry, grouping: Grouping) -> (r:
    bool)
    ensures
        r == comes_no_later(a@, b@, grouping),
{
    let a_leads = match grouping {
        Grouping::DirectoriesFirst => a.is_directory(),
        Grouping::DirectoriesLast => !a.is_directory(),
    };
    let b_leads = match grouping {
        Grouping::DirectoriesFirst => b.is_directory(),
        Grouping::DirectoriesLast => !b.is_directory(),
    };
    if a_leads == b_leads {
        name_comes_no_later(a.name.as_str(), b.name.as_str())
    } else {
        a_leads
    }
}

/// Putting `x` into `s` in front of entries that all fail `keep`, or an `x`
/// that fails it itself, leaves of `s` with `x` at its end what passes `keep`.
proof fn lemma_filter_insert(
    s: Seq<EntryModel>,
    at: int,
    x: EntryModel,
    keep: spec_fn(EntryModel) -> bool,
)
    requires
        0 <= at <= s.len(),
        keep(x) ==> forall|j: int| at <= j < s.len() ==> !keep(#[trigger] s[j]),
    ensures
        s.insert(at, x).filter(keep) == s.push(x).filter(keep),
{
    let front = s.take(at);
    let back = s.skip(at);
    let one = seq![x];
    assert(s.insert(at, x) =~= (front + one) + back);
    assert(s.push(x) =~= (front + back) + one);
    Seq::filter_distributes_over_add(front + one, back, keep);
    Seq::filter_distributes_over_add(front, one, keep);
    Seq::filter_distributes_over_add(front + back, one, keep);
    Seq::filter_distributes_over_add(front, back, keep);
    if keep(x) {
        assert(back.all(|e: EntryModel| !keep(e)));
        back.lemma_all_neg_filter_empty(keep);
        assert(back.filter(keep) =~= Seq::<EntryModel>::empty());
        assert(front.filter(keep) + one.filter(keep) + back.filter(keep) =~= front.filter(keep)
            + back.filter(keep) + one.filter(keep));
    } else {
        assert(one.all(|e: EntryModel| !keep(e)));
        one.lemma_all_neg_filter_empty(keep);
        assert(one.filter(keep) =~= Seq::<EntryModel>::empty());
        assert(front.filter(keep) + one.filter(keep) + back.filter(keep) =~= front.filter(keep)
            + back.filter(keep) + one.filter(keep));
    }
}

/// Sorts the entries into listing order: the group that `grouping` puts first,
/// then the other, each by name. Entries that tie keep the order in which
/// they came.
pub fn sort_entries(entries: Vec<DirectoryEntry>, grouping: Grouping) -> (sorted: Vec<
    DirectoryEntry,
>)
    ensures
        is_arranged(sorted.deep_view(), grouping),
        sorted.deep_view().to_multiset() == entries.deep_view().to_multiset(),
        keeps_tied_order(entries.deep_view(), sorted.deep_view()),
{
    let ghost input = entries.deep_view();
    let mut sorted: Vec<DirectoryEntry> = Vec::new();
    assert(input.take(0) =~= sorted.deep_view());
    for entry in it: entries
        invariant
            it.seq().len() == input.len(),
            forall|k: int| 0 <= k < input.len() ==> (#[trigger] it.seq()[k])@ == input[k],
            is_arranged(sorted.deep_view(), grouping),
            sorted.deep_view().to_multiset() == input.take(it.index() as int).to_multiset(),
            keeps_tied_order(input.take(it.index() as int), sorted.deep_view()),
    {
        let ghost before = sorted.deep_view();
        let ghost done = input.take(it.index() as int);
        let mut at: usize = sorted.len();
        while at > 0 && !entry_comes_no_later(&sorted[at - 1], &entry, grouping)
            invariant
                at <= sorted.len(),
                before == sorted.deep_view(),
                forall|j: int|
                    at <= j < before.len() ==> !comes_no_later(#[trigger] before[j], entry@, grouping),
            decreases at,
        {
            at = at - 1;
        }
        sorted.insert(at, entry);
        proof {
            let x = entry@;
            let after = sorted.deep_view();
            assert(after =~= before.insert(at as int, x));
            assert(input.take(it.index() + 1) =~= done.push(x));
            to_multiset_insert(before, at as int, x);
            to_multiset_build(done, x);
            assert forall|i: int, j: int| 0 <= i < j < after.len() implies comes_no_later(
                #[trigger] after[i],
                #[trigger] after[j],
                grouping,
            ) by {
                if j == at {
                    if i < at - 1 {
                        lemma_comes_no_later_transitive(before[i], before[at - 1], x, grouping);
                    }
                } else if i == at {
                    lemma_comes_no_later_total(before[j - 1], x, grouping);
                } else if i < at && j > at {
                    assert(comes_no_later(before[i], before[j - 1], grouping));
                } else if i < at {
                    assert(comes_no_later(before[i], before[j], grouping));
                } else {
                    assert(comes_no_later(before[i - 1], before[j - 1], grouping));
                }
            }
            assert forall|e: EntryModel| #[trigger]
                after.filter(tied_with(e)) == done.push(x).filter(tied_with(e)) by {
                let keep = tied_with(e);
                if keep(x) {
                    assert forall|j: int| at <= j < before.len() implies !keep(
                        #[trigger] before[j],
                    ) by {
                        if keep(before[j]) {
                            lemma_ties_both_ways(x, before[j], grouping);
                        }
                    }
                }
                lemma_filter_insert(before, at as int, x, keep);
                Seq::filter_distributes_over_add(before, seq![x], keep);
                Seq::filter_distributes_over_add(done, seq![x], keep);
                assert(before.push(x) =~= before + seq![x]);
                assert(done.push(x) =~= done + seq![x]);
                assert(before.filter(keep) == done.filter(keep));
            }
        }
    }
    assert(input.take(input.len() as int) =~= input);
    sorted
}

} // verus!

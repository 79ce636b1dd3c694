//! What holds of a whole sorting run.

use vstd::prelude::*;
use vstd::multiset::Multiset;
use crate::category::{Category, CATEGORY_COUNT, lemma_registry_order};
use crate::text::is_blank;
use crate::sorting::{Entry, answered, sorted};

verus! {

/// The lines of `entries` that were sorted into the bucket of `c`: those
/// that are not blank and for which `c` was chosen, in input order.
pub open spec fn picked(entries: Seq<Entry>, c: Category) -> Seq<Seq<char>> {
    entries.filter(|e: Entry| !is_blank(e.0) && e.1 == Some(c)).map_values(|e: Entry| e.0)
}

/// The lines of `entries` that are not blank, in input order.
pub open spec fn package_lines(entries: Seq<Entry>) -> Seq<Seq<char>> {
    entries.filter(|e: Entry| !is_blank(e.0)).map_values(|e: Entry| e.0)
}

/// Everything the buckets hold together, with multiplicity.
pub open spec fn all_packages(bins: Seq<Seq<Seq<char>>>) -> Multiset<Seq<char>> {
    bins[0].to_multiset().add(bins[1].to_multiset()).add(bins[2].to_multiset()).add(
        bins[3].to_multiset(),
    ).add(bins[4].to_multiset())
}

/// A run always leaves one bucket per category.
pub proof fn lemma_sorted_has_every_bucket(entries: Seq<Entry>)
    ensures
        sorted(entries).len() == CATEGORY_COUNT,
    decreases entries.len(),
{
    if entries.len() > 0 {
        lemma_sorted_has_every_bucket(entries.drop_last());
    }
}

/// The bucket of each category holds exactly the non-blank lines for which
/// that category was chosen, each as read, in the order they came in.
pub proof fn lemma_bucket_keeps_input_order(entries: Seq<Entry>, c: Category)
    ensures
        sorted(entries)[c.index() as int] == picked(entries, c),
    decreases entries.len(),
{
    broadcast use Seq::lemma_filter_push;

    let pred = |e: Entry| !is_blank(e.0) && e.1 == Some(c);
    let f = |e: Entry| e.0;
    lemma_registry_order(c);
    if entries.len() == 0 {
        reveal(Seq::filter);
        assert(picked(entries, c) =~= Seq::empty());
    } else {
        let prefix = entries.drop_last();
        let e = entries.last();
        lemma_bucket_keeps_input_order(prefix, c);
        lemma_sorted_has_every_bucket(prefix);
        assert(entries =~= prefix.push(e));
        assert(entries.filter(pred) == if pred(e) {
            prefix.filter(pred).push(e)
        } else {
            prefix.filter(pred)
        });
        if pred(e) {
            assert(prefix.filter(pred).push(e).map_values(f) =~= prefix.filter(pred).map_values(f).push(e.0));
        }
    }
}

/// Blank lines change nothing: a run gives the same buckets once every
/// blank line is taken out of its input.
pub proof fn lemma_blank_lines_change_nothing(entries: Seq<Entry>)
    ensures
        sorted(entries) == sorted(entries.filter(|e: Entry| !is_blank(e.0))),
    decreases entries.len(),
{
    broadcast use Seq::lemma_filter_push;

    let pred = |e: Entry| !is_blank(e.0);
    if entries.len() == 0 {
        reveal(Seq::filter);
        assert(entries.filter(pred) =~= entries);
    } else {
        let prefix = entries.drop_last();
        let e = entries.last();
        lemma_blank_lines_change_nothing(prefix);
        assert(entries =~= prefix.push(e));
        assert(entries.filter(pred) == if pred(e) {
            prefix.filter(pred).push(e)
        } else {
            prefix.filter(pred)
        });
        if pred(e) {
            assert(prefix.filter(pred).push(e).drop_last() =~= prefix.filter(pred));
        }
    }
}

/// Every line that is not blank lands in exactly one bucket, once: taken
/// together, the buckets hold the non-blank lines of the input, each as
/// many times as it occurs there, and each line sits in the bucket of the
/// category chosen for it.
pub proof fn lemma_every_line_in_one_bucket(entries: Seq<Entry>)
    requires
        answered(entries),
    ensures
        all_packages(sorted(entries)) == package_lines(entries).to_multiset(),
        forall|i: int|
            0 <= i < entries.len() && !is_blank(#[trigger] entries[i].0) ==> sorted(
                entries,
            )[entries[i].1->0.index() as int].contains(entries[i].0),
    decreases entries.len(),
{
    broadcast use Seq::lemma_filter_push, vstd::seq_lib::group_to_multiset_ensures;

    let pred = |e: Entry| !is_blank(e.0);
    let f = |e: Entry| e.0;
    if entries.len() == 0 {
        reveal(Seq::filter);
        assert(package_lines(entries) =~= Seq::empty());
        assert(all_packages(sorted(entries)) =~= Multiset::empty());
    } else {
        let prefix = entries.drop_last();
        let e = entries.last();
        assert(answered(prefix)) by {
            assert forall|i: int| 0 <= i < prefix.len() && !is_blank(#[trigger] prefix[i].0) implies prefix[i].1 is Some by {
                assert(prefix[i] == entries[i]);
            }
        }
        lemma_every_line_in_one_bucket(prefix);
        lemma_sorted_has_every_bucket(prefix);
        assert(entries =~= prefix.push(e));
        let before = sorted(prefix);
        if pred(e) {
            assert(entries[entries.len() - 1] == e);
            let k = e.1->0.index() as int;
            lemma_registry_order(e.1->0);
            assert(package_lines(entries) =~= package_lines(prefix).push(e.0));
            assert(before[k].push(e.0).to_multiset() =~= before[k].to_multiset().insert(e.0));
            assert(all_packages(sorted(entries)) =~= all_packages(before).insert(e.0));
        } else {
            assert(sorted(entries) == before);
            assert(package_lines(entries) =~= package_lines(prefix));
        }
        assert forall|i: int|
            0 <= i < entries.len() && !is_blank(#[trigger] entries[i].0) implies sorted(
            entries,
        )[entries[i].1->0.index() as int].contains(entries[i].0) by {
            lemma_registry_order(entries[i].1->0);
            if i < prefix.len() {
                assert(prefix[i] == entries[i]);
                let k = entries[i].1->0.index() as int;
                assert(before[k].contains(entries[i].0));
                let j = choose|j: int| 0 <= j < before[k].len() && before[k][j] == entries[i].0;
                if pred(e) {
                    let m = e.1->0.index() as int;
                    if m == k {
                        assert(sorted(entries)[k][j] == entries[i].0);
                    }
                }
            } else {
                let k = e.1->0.index() as int;
                assert(sorted(entries)[k].last() == e.0);
            }
        }
    }
}

/// Before any line is read, every bucket is empty, so an empty input
/// leads to no output file.
pub proof fn lemma_empty_input_empty_buckets(c: Category)
    ensures
        sorted(Seq::empty())[c.index() as int].len() == 0,
{
    lemma_registry_order(c);
}

} // verus!

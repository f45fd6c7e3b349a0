//! The order of the listing: entries sorted by name.

use vstd::prelude::*;
use vstd::seq_lib::*;
use crate::entry::File;
use crate::name::{
    lemma_name_le_antisymmetric, lemma_name_le_reflexive, lemma_name_le_total,
    lemma_name_le_transitive, name_le, names_in_order,
};

verus! {

/// Whether names never decrease along the sequence.
pub open spec fn sorted_by_name(entries: Seq<File>) -> bool {
    forall|i: int, j: int|
        0 <= i <= j < entries.len() ==> name_le(
            #[trigger] entries[i]@.name,
            #[trigger] entries[j]@.name,
        )
}

/// The test "this entry bears `name`".
pub open spec fn bears(name: Seq<char>) -> spec_fn(File) -> bool {
    |file: File| file@.name == name
}

/// The entries that bear `name`, in the order in which they stand.
pub open spec fn bearing(entries: Seq<File>, name: Seq<char>) -> Seq<File> {
    entries.filter(bears(name))
}

/// Whether `sorted` is `entries` sorted by name: names never decrease, and
/// under every name stand the same entries as before, in the same order.
/// Entries of one name thus keep their places among themselves.
pub open spec fn is_name_sort_of(sorted: Seq<File>, entries: Seq<File>) -> bool {
    &&& sorted_by_name(sorted)
    &&& forall|name: Seq<char>| #[trigger] bearing(sorted, name) == bearing(entries, name)
}

/// No entry of `entries` bears `name`, so none is selected.
proof fn lemma_none_bearing(entries: Seq<File>, name: Seq<char>)
    requires
        forall|k: int| 0 <= k < entries.len() ==> entries[k]@.name != name,
    ensures
        bearing(entries, name) == Seq::<File>::empty(),
    decreases entries.len(),
{
    reveal(Seq::filter);
    if entries.len() > 0 {
        lemma_none_bearing(entries.drop_last(), name);
    }
}

/// Putting `file` behind the entries that are in order with it, and before
/// those that are not, keeps a sorted sequence sorted, and selects under each
/// name what appending `file` would select.
proof fn lemma_insert_in_place(prefix: Seq<File>, at: int, file: File)
    requires
        sorted_by_name(prefix),
        0 <= at <= prefix.len(),
        forall|k: int| 0 <= k < at ==> name_le(prefix[k]@.name, file@.name),
        forall|k: int| at <= k < prefix.len() ==> !name_le(prefix[k]@.name, file@.name),
    ensures
        sorted_by_name(prefix.insert(at, file)),
        forall|name: Seq<char>| #[trigger]
            bearing(prefix.insert(at, file), name) == bearing(prefix.push(file), name),
{
    let grown = prefix.insert(at, file);
    assert forall|i: int, j: int| 0 <= i <= j < grown.len() implies name_le(
        #[trigger] grown[i]@.name,
        #[trigger] grown[j]@.name,
    ) by {
        lemma_name_le_reflexive(file@.name);
        if i < at && j > at {
            assert(grown[i] == prefix[i]);
            assert(grown[j] == prefix[j - 1]);
        } else if i < at && j < at {
            assert(grown[i] == prefix[i]);
            assert(grown[j] == prefix[j]);
        } else if i > at {
            assert(grown[i] == prefix[i - 1]);
            assert(grown[j] == prefix[j - 1]);
        } else if i == at && j > at {
            assert(grown[j] == prefix[j - 1]);
            lemma_name_le_total(prefix[j - 1]@.name, file@.name);
        }
    }
    let head = prefix.take(at);
    let tail = prefix.skip(at);
    assert(prefix =~= head + tail);
    assert(grown =~= head.push(file) + tail);
    assert forall|name: Seq<char>| #[trigger]
        bearing(grown, name) == bearing(prefix.push(file), name) by {
        let test = bears(name);
        Seq::filter_distributes_over_add(head, tail, test);
        Seq::filter_distributes_over_add(head.push(file), tail, test);
        head.lemma_filter_push(file, test);
        prefix.lemma_filter_push(file, test);
        if file@.name == name {
            assert forall|k: int| 0 <= k < tail.len() implies tail[k]@.name != name by {
                assert(tail[k] == prefix[at + k]);
                lemma_name_le_reflexive(name);
            }
            lemma_none_bearing(tail, name);
            assert(head.filter(test).push(file) + Seq::<File>::empty() =~= (head.filter(test)
                + Seq::<File>::empty()).push(file));
        }
    }
}

/// Sorts the entries by name, in place. Entries of one name keep their
/// places among themselves, so the outcome is determined for every input.
pub fn sort_by_name(entries: &mut Vec<File>)
    ensures
        is_name_sort_of(final(entries)@, old(entries)@),
        final(entries)@.to_multiset() == old(entries)@.to_multiset(),
{
    let ghost given = entries@;
    let mut done: usize = 0;
    while done < entries.len()
        invariant
            done <= entries.len(),
            entries@.len() == given.len(),
            sorted_by_name(entries@.take(done as int)),
            forall|name: Seq<char>| #[trigger]
                bearing(entries@.take(done as int), name) == bearing(
                    given.take(done as int),
                    name,
                ),
            entries@.skip(done as int) == given.skip(done as int),
            entries@.to_multiset() == given.to_multiset(),
        decreases entries.len() - done,
    {
        let ghost before = entries@;
        let ghost prefix = entries@.take(done as int);
        let file = entries.remove(done);
        let ghost moved = file;
        assert(moved == given[done as int]) by {
            assert(before.skip(done as int)[0] == given.skip(done as int)[0]);
        }
        assert(entries@.take(done as int) =~= prefix);
        let mut at: usize = done;
        while at > 0 && !names_in_order(entries[at - 1].name(), file.name())
            invariant
                at <= done,
                done <= entries.len(),
                entries@.take(done as int) == prefix,
                forall|k: int| at <= k < done ==> !name_le(prefix[k]@.name, file@.name),
            decreases at,
        {
            assert(entries@[at - 1] == prefix[at - 1]);
            at -= 1;
        }
        proof {
            assert forall|k: int| 0 <= k < at implies name_le(prefix[k]@.name, file@.name) by {
                assert(entries@[at - 1] == prefix[at - 1]);
                lemma_name_le_transitive(prefix[k]@.name, prefix[at - 1]@.name, file@.name);
            }
            lemma_insert_in_place(prefix, at as int, file);
            to_multiset_remove(before, done as int);
            to_multiset_insert(before.remove(done as int), at as int, file);
            assert(before.to_multiset().remove(moved).insert(moved) =~= before.to_multiset()) by {
                broadcast use vstd::multiset::group_multiset_axioms;
                broadcast use group_to_multiset_ensures;

                assert(before.to_multiset().contains(before[done as int]));
            }
        }
        entries.insert(at, file);
        proof {
            assert(entries@.take(done + 1) =~= prefix.insert(at as int, moved));
            assert(given.take(done + 1) =~= given.take(done as int).push(moved));
            assert(entries@.skip(done + 1) =~= given.skip(done + 1)) by {
                let rest = entries@.skip(done + 1);
                assert forall|k: int| 0 <= k < rest.len() implies #[trigger] rest[k]
                    == given.skip(done + 1)[k] by {
                    assert(before.skip(done as int)[k + 1] == given.skip(done as int)[k + 1]);
                }
            }
            assert forall|name: Seq<char>| #[trigger]
                bearing(entries@.take(done + 1), name) == bearing(
                    given.take(done + 1),
                    name,
                ) by {
                let test = bears(name);
                prefix.lemma_filter_push(moved, test);
                given.take(done as int).lemma_filter_push(moved, test);
                assert(bearing(prefix, name) == bearing(given.take(done as int), name));
            }
        }
        done += 1;
    }
    proof {
        assert(entries@.take(done as int) =~= entries@);
        assert(given.take(done as int) =~= given);
    }
}

/// Where some entry is selected under `name`, an entry of that name stands
/// in the sequence.
proof fn lemma_bearing_has_source(entries: Seq<File>, name: Seq<char>) -> (at: int)
    requires
        bearing(entries, name).len() > 0,
    ensures
        0 <= at < entries.len(),
        entries[at]@.name == name,
    decreases entries.len(),
{
    reveal(Seq::filter);
    if entries.last()@.name == name {
        entries.len() - 1
    } else {
        lemma_bearing_has_source(entries.drop_last(), name)
    }
}

/// Two sorted sequences that hold, under every name, the same entries in the
/// same order are the same sequence: what `is_name_sort_of` asks for is met
/// by one sequence only.
pub proof fn lemma_name_sort_unique(a: Seq<File>, b: Seq<File>)
    requires
        sorted_by_name(a),
        sorted_by_name(b),
        forall|name: Seq<char>| #[trigger] bearing(a, name) == bearing(b, name),
    ensures
        a == b,
    decreases a.len(),
{
    reveal(Seq::filter);
    if a.len() == 0 {
        if b.len() > 0 {
            let m = b.last()@.name;
            assert(bearing(b, m).len() > 0);
            assert(bearing(a, m).len() == 0);
        }
        assert(a =~= b);
    } else {
        let n = a.last()@.name;
        assert(bearing(a, n) == bearing(a.drop_last(), n).push(a.last()));
        assert(bearing(b, n).len() > 0);
        let m = b.last()@.name;
        assert(bearing(b, m) == bearing(b.drop_last(), m).push(b.last()));
        assert(bearing(a, m).len() > 0);
        let in_b = lemma_bearing_has_source(b, n);
        let in_a = lemma_bearing_has_source(a, m);
        assert(name_le(b[in_b]@.name, b[b.len() - 1]@.name));
        assert(name_le(a[in_a]@.name, a[a.len() - 1]@.name));
        lemma_name_le_antisymmetric(n, m);
        assert(bearing(a.drop_last(), n).push(a.last()) == bearing(b.drop_last(), n).push(
            b.last(),
        ));
        assert(a.last() == b.last()) by {
            let left = bearing(a.drop_last(), n).push(a.last());
            let right = bearing(b.drop_last(), n).push(b.last());
            assert(left.last() == right.last());
        }
        let short_a = a.drop_last();
        let short_b = b.drop_last();
        assert(sorted_by_name(short_a)) by {
            assert forall|i: int, j: int| 0 <= i <= j < short_a.len() implies name_le(
                #[trigger] short_a[i]@.name,
                #[trigger] short_a[j]@.name,
            ) by {
                assert(short_a[i] == a[i]);
                assert(short_a[j] == a[j]);
            }
        }
        assert(sorted_by_name(short_b)) by {
            assert forall|i: int, j: int| 0 <= i <= j < short_b.len() implies name_le(
                #[trigger] short_b[i]@.name,
                #[trigger] short_b[j]@.name,
            ) by {
                assert(short_b[i] == b[i]);
                assert(short_b[j] == b[j]);
            }
        }
        assert forall|name: Seq<char>| #[trigger]
            bearing(short_a, name) == bearing(short_b, name) by {
            assert(bearing(a, name) == bearing(b, name));
            if name == n {
                let left = bearing(short_a, n).push(a.last());
                let right = bearing(short_b, n).push(b.last());
                assert(left.drop_last() =~= bearing(short_a, n));
                assert(right.drop_last() =~= bearing(short_b, n));
            }
        }
        lemma_name_sort_unique(short_a, short_b);
        assert(a =~= short_a.push(a.last()));
        assert(b =~= short_b.push(b.last()));
    }
}

/// Sorting what is sorted already changes nothing: a sequence whose names
/// never decrease is its own sort, and no other sequence is.
pub proof fn lemma_sorted_is_fixed(entries: Seq<File>, sorted: Seq<File>)
    requires
        sorted_by_name(entries),
        is_name_sort_of(sorted, entries),
    ensures
        sorted == entries,
{
    lemma_name_sort_unique(sorted, entries);
}

} // verus!

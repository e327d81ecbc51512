//! What an index of GDSII properties holds, stated over lists of pairs of code and
//! value, and the laws that follow.

use crate::sorting::{ascending, lemma_ascending_no_duplicates, lemma_ascending_unique};
use vstd::prelude::*;

verus! {

/// A GDSII property in contracts: its attribute code and the characters of its value.
pub type Entry = (i16, Seq<char>);

/// The attribute codes of a list of properties, in the list's order.
pub open spec fn codes(entries: Seq<Entry>) -> Seq<i16> {
    entries.map_values(|entry: Entry| entry.0)
}

/// The value of the last property in `entries` that has the attribute code `code`,
/// or `None` where no property has it.
pub open spec fn last_value(entries: Seq<Entry>, code: i16) -> Option<Seq<char>>
    decreases entries.len(),
{
    if entries.len() == 0 {
        None
    } else if entries.last().0 == code {
        Some(entries.last().1)
    } else {
        last_value(entries.drop_last(), code)
    }
}

/// The index of a list of properties: it holds each attribute code of the list, with
/// the value of the last property that has that code.
pub open spec fn index_of(entries: Seq<Entry>) -> Map<i16, Seq<char>> {
    Map::new(
        |code: i16| last_value(entries, code) is Some,
        |code: i16| last_value(entries, code)->0,
    )
}

/// `entries` lists `index`: it holds the pairs of code and value of `index`, each once,
/// in ascending order of the codes.
pub open spec fn lists(entries: Seq<Entry>, index: Map<i16, Seq<char>>) -> bool {
    &&& ascending(codes(entries))
    &&& entries.to_set() == index.kv_pairs()
}

/// Indexing a list with one more property at its end inserts that property's code and
/// value into the index of the list.
pub proof fn lemma_index_of_push(entries: Seq<Entry>, entry: Entry)
    ensures
        index_of(entries.push(entry)) == index_of(entries).insert(entry.0, entry.1),
{
    let longer = entries.push(entry);
    assert(longer.drop_last() =~= entries);
    assert(longer.last() == entry);
    assert forall|code: i16| #[trigger]
        last_value(longer, code) == (if code == entry.0 {
            Some(entry.1)
        } else {
            last_value(entries, code)
        }) by {}
    assert(index_of(longer) =~= index_of(entries).insert(entry.0, entry.1));
}

/// Where a list has a property with the code `code`, `last_value` is the value at the
/// last position that has the code; where it has none, `last_value` is `None`.
pub proof fn lemma_last_value_is_at_last_occurrence(entries: Seq<Entry>, code: i16)
    ensures
        match last_value(entries, code) {
            Some(value) => exists|at: int|
                0 <= at < entries.len() && #[trigger] entries[at] == (code, value) && forall|
                    later: int,
                |
                    at < later < entries.len() ==> (#[trigger] entries[later]).0 != code,
            None => forall|at: int| 0 <= at < entries.len() ==> (#[trigger] entries[at]).0 != code,
        },
    decreases entries.len(),
{
    if entries.len() == 0 {
    } else if entries.last().0 == code {
        let at = entries.len() - 1;
        assert(entries[at] == (code, entries.last().1));
    } else {
        let shorter = entries.drop_last();
        lemma_last_value_is_at_last_occurrence(shorter, code);
        match last_value(shorter, code) {
            Some(value) => {
                let at = choose|at: int|
                    0 <= at < shorter.len() && #[trigger] shorter[at] == (code, value) && forall|
                        later: int,
                    |
                        at < later < shorter.len() ==> (#[trigger] shorter[later]).0 != code;
                assert(entries[at] == (code, value));
                assert forall|later: int| at < later < entries.len() implies (
                #[trigger] entries[later]).0 != code by {
                    if later < shorter.len() {
                        assert(shorter[later].0 != code);
                    }
                }
            },
            None => {
                assert forall|at: int| 0 <= at < entries.len() implies (#[trigger] entries[at]).0
                    != code by {
                    if at < shorter.len() {
                        assert(shorter[at].0 != code);
                    }
                }
            },
        }
    }
}

/// Last write wins: a property behind which no property of the list has the same code
/// gives the code its value in the index, whatever stands before it.
///
/// So where a code occurs with one value and later, for the last time, with another,
/// the index holds the other.
pub proof fn lemma_last_write_wins(entries: Seq<Entry>, at: int)
    requires
        0 <= at < entries.len(),
        forall|later: int| at < later < entries.len() ==> entries[later].0 != entries[at].0,
    ensures
        index_of(entries).contains_pair(entries[at].0, entries[at].1),
{
    let code = entries[at].0;
    lemma_last_value_is_at_last_occurrence(entries, code);
    match last_value(entries, code) {
        Some(value) => {
            let last = choose|last: int|
                0 <= last < entries.len() && #[trigger] entries[last] == (code, value) && forall|
                    later: int,
                |
                    last < later < entries.len() ==> (#[trigger] entries[later]).0 != code;
            if last < at {
                assert(entries[at].0 != code);
            }
            if at < last {
                assert(entries[last].0 != entries[at].0);
            }
        },
        None => {
            assert(entries[at].0 != code);
        },
    }
}

/// The index of a list holds exactly the codes of the list.
pub proof fn lemma_index_holds_the_codes(entries: Seq<Entry>)
    ensures
        index_of(entries).dom() == codes(entries).to_set(),
{
    assert forall|code: i16|
        index_of(entries).dom().contains(code) == codes(entries).to_set().contains(code) by {
        lemma_last_value_is_at_last_occurrence(entries, code);
        match last_value(entries, code) {
            Some(value) => {
                let at = choose|at: int|
                    0 <= at < entries.len() && #[trigger] entries[at] == (code, value);
                assert(codes(entries)[at] == code);
            },
            None => {
                if codes(entries).contains(code) {
                    let at = choose|at: int|
                        0 <= at < codes(entries).len() && codes(entries)[at] == code;
                    assert(entries[at].0 == code);
                }
            },
        }
    }
    assert(index_of(entries).dom() =~= codes(entries).to_set());
}

/// The index of a list in which no code occurs twice holds exactly the pairs of code
/// and value of the list.
pub proof fn lemma_index_of_unique_codes(entries: Seq<Entry>)
    requires
        codes(entries).no_duplicates(),
    ensures
        index_of(entries).kv_pairs() == entries.to_set(),
{
    assert forall|entry: Entry|
        index_of(entries).kv_pairs().contains(entry) == entries.to_set().contains(entry) by {
        lemma_last_value_is_at_last_occurrence(entries, entry.0);
        if entries.contains(entry) {
            let at = choose|at: int| 0 <= at < entries.len() && entries[at] == entry;
            assert forall|later: int| at < later < entries.len() implies entries[later].0
                != entries[at].0 by {
                assert(codes(entries)[later] == entries[later].0);
                assert(codes(entries)[at] == entries[at].0);
            }
            lemma_last_write_wins(entries, at);
        }
    }
    assert(index_of(entries).kv_pairs() =~= entries.to_set());
}

/// The codes of a list of an index are the codes that the index holds, in ascending
/// order, and the list holds with each code the value that the index has for it.
pub proof fn lemma_lists_by_code(entries: Seq<Entry>, index: Map<i16, Seq<char>>)
    requires
        lists(entries, index),
    ensures
        codes(entries).to_set() == index.dom(),
        forall|at: int|
            0 <= at < entries.len() ==> index.contains_pair(
                (#[trigger] entries[at]).0,
                entries[at].1,
            ),
{
    assert forall|at: int| 0 <= at < entries.len() implies index.contains_pair(
        (#[trigger] entries[at]).0,
        entries[at].1,
    ) by {
        assert(entries.to_set().contains(entries[at]));
        assert(index.kv_pairs().contains(entries[at]));
    }
    assert forall|code: i16| codes(entries).to_set().contains(code) == index.dom().contains(
        code,
    ) by {
        if codes(entries).contains(code) {
            let at = choose|at: int| 0 <= at < codes(entries).len() && codes(entries)[at] == code;
            assert(index.contains_pair(entries[at].0, entries[at].1));
        }
        if index.dom().contains(code) {
            assert(index.kv_pairs().contains((code, index[code])));
            assert(entries.to_set().contains((code, index[code])));
            let at = choose|at: int| 0 <= at < entries.len() && entries[at] == (code, index[code]);
            assert(codes(entries)[at] == code);
        }
    }
    assert(codes(entries).to_set() =~= index.dom());
}

/// An index has one list: two lists of the same index are the same list, so the list
/// does not depend on the order in which the index was filled.
pub proof fn lemma_lists_unique(first: Seq<Entry>, second: Seq<Entry>, index: Map<i16, Seq<char>>)
    requires
        lists(first, index),
        lists(second, index),
    ensures
        first == second,
{
    lemma_lists_by_code(first, index);
    lemma_lists_by_code(second, index);
    lemma_ascending_unique(codes(first), codes(second));
    assert forall|at: int| 0 <= at < first.len() implies first[at] == second[at] by {
        assert(codes(first)[at] == first[at].0);
        assert(codes(second)[at] == second[at].0);
        assert(index.contains_pair(first[at].0, first[at].1));
        assert(index.contains_pair(second[at].0, second[at].1));
    }
    assert(first.len() == codes(first).len());
    assert(second.len() == codes(second).len());
    assert(first =~= second);
}

/// Indexing the list of an index gives the index again.
pub proof fn lemma_index_of_list(entries: Seq<Entry>, index: Map<i16, Seq<char>>)
    requires
        lists(entries, index),
    ensures
        index_of(entries) == index,
{
    lemma_lists_by_code(entries, index);
    lemma_index_holds_the_codes(entries);
    lemma_ascending_no_duplicates(codes(entries));
    lemma_index_of_unique_codes(entries);
    assert forall|code: i16| index.dom().contains(code) implies #[trigger] index_of(entries)[code]
        == index[code] by {
        assert(index.kv_pairs().contains((code, index[code])));
        assert(index_of(entries).kv_pairs().contains((code, index[code])));
    }
    assert(index_of(entries) =~= index);
}

/// Indexing a list in which no code occurs twice and listing the index gives the pairs
/// of code and value of the list, in ascending order of the codes.
pub proof fn lemma_round_trip_of_unique_codes(entries: Seq<Entry>, listed: Seq<Entry>)
    requires
        codes(entries).no_duplicates(),
        lists(listed, index_of(entries)),
    ensures
        listed.to_set() == entries.to_set(),
        ascending(codes(listed)),
{
    lemma_index_of_unique_codes(entries);
}

/// Listing an index gives at most as many properties as the list that was indexed,
/// and as many where no code occurs twice in that list: only a code that occurs more
/// than once makes the list shorter.
pub proof fn lemma_list_is_no_longer(entries: Seq<Entry>, listed: Seq<Entry>)
    requires
        lists(listed, index_of(entries)),
    ensures
        listed.len() <= entries.len(),
        codes(entries).no_duplicates() ==> listed.len() == entries.len(),
{
    lemma_lists_by_code(listed, index_of(entries));
    lemma_index_holds_the_codes(entries);
    lemma_ascending_no_duplicates(codes(listed));
    codes(listed).unique_seq_to_set();
    codes(entries).lemma_cardinality_of_set();
    if codes(entries).no_duplicates() {
        codes(entries).unique_seq_to_set();
    }
}

} // verus!

//! Constructor selection: picking, in model enumeration order, the
//! constructors whose mnemonic is in the requested selection set.
//!
//! The run must fail fast when the matched-constructor count differs
//! from the cardinality of the selection set — in particular when a
//! requested mnemonic is absent from the model.

use vstd::prelude::*;

use crate::mapper::str_eq;
use crate::model::{Constructor, GenError};

verus! {

/// The character sequences of the selection strings.
pub open spec fn names_of(sel: Seq<String>) -> Seq<Seq<char>> {
    sel.map_values(|s: String| s@)
}

/// Whether a constructor carries exactly this mnemonic.
pub open spec fn is_named(c: Constructor, name: Seq<char>) -> bool {
    c.display.mnemonic matches Some(m) && m@ == name
}

/// Whether a constructor's mnemonic is in the selection set.  A
/// constructor without a mnemonic matches nothing.
pub open spec fn is_selected(c: Constructor, names: Seq<Seq<char>>) -> bool {
    c.display.mnemonic matches Some(m) && names.contains(m@)
}

/// The indices of the selected constructors, in model order.
pub open spec fn selected_indices(cs: Seq<Constructor>, names: Seq<Seq<char>>) -> Seq<int>
    decreases cs.len(),
{
    if cs.len() == 0 {
        Seq::empty()
    } else {
        let pre = selected_indices(cs.drop_last(), names);
        if is_selected(cs.last(), names) {
            pre.push(cs.len() - 1)
        } else {
            pre
        }
    }
}

/// How many constructors carry this mnemonic.
pub open spec fn count_matching(cs: Seq<Constructor>, name: Seq<char>) -> nat
    decreases cs.len(),
{
    if cs.len() == 0 {
        0
    } else {
        count_matching(cs.drop_last(), name) + if is_named(cs.last(), name) {
            1nat
        } else {
            0nat
        }
    }
}

/// Whether the selection names are pairwise distinct.
pub open spec fn distinct_names(names: Seq<Seq<char>>) -> bool {
    forall|i: int, j: int| 0 <= i < j < names.len() ==> names[i] != names[j]
}

/// Every selected index is in range, refers to a selected constructor,
/// and the indices are strictly increasing.
pub proof fn lemma_selected_indices_props(cs: Seq<Constructor>, names: Seq<Seq<char>>)
    ensures
        forall|j: int| 0 <= j < selected_indices(cs, names).len()
            ==> 0 <= #[trigger] selected_indices(cs, names)[j] < cs.len(),
        forall|j: int| 0 <= j < selected_indices(cs, names).len()
            ==> is_selected(cs[#[trigger] selected_indices(cs, names)[j]], names),
        forall|j1: int, j2: int| 0 <= j1 < j2 < selected_indices(cs, names).len()
            ==> #[trigger] selected_indices(cs, names)[j1]
                < #[trigger] selected_indices(cs, names)[j2],
    decreases cs.len(),
{
    if cs.len() > 0 {
        lemma_selected_indices_props(cs.drop_last(), names);
        let pre = selected_indices(cs.drop_last(), names);
        assert(forall|j: int| 0 <= j < pre.len()
            ==> cs.drop_last()[#[trigger] pre[j]] == cs[pre[j]]);
    }
}

proof fn lemma_contains_split(names: Seq<Seq<char>>, x: Seq<char>)
    requires
        names.len() > 0,
    ensures
        names.contains(x) <==> (names.drop_last().contains(x) || names.last() == x),
{
    if names.contains(x) {
        let i = choose|i: int| 0 <= i < names.len() && names[i] == x;
        if i < names.len() - 1 {
            assert(names.drop_last()[i] == x);
        }
    }
    if names.drop_last().contains(x) {
        let i = choose|i: int| 0 <= i < names.drop_last().len() && names.drop_last()[i] == x;
        assert(names[i] == x);
    }
}

proof fn lemma_selected_split(cs: Seq<Constructor>, names: Seq<Seq<char>>)
    requires
        names.len() > 0,
        !names.drop_last().contains(names.last()),
    ensures
        selected_indices(cs, names).len() == selected_indices(cs, names.drop_last()).len()
            + count_matching(cs, names.last()),
    decreases cs.len(),
{
    if cs.len() > 0 {
        lemma_selected_split(cs.drop_last(), names);
        lemma_contains_split(names, match cs.last().display.mnemonic {
            Some(m) => m@,
            None => names.last(),
        });
    }
}

/// The total matched-constructor count over a distinct selection set.
pub open spec fn sum_counts(cs: Seq<Constructor>, names: Seq<Seq<char>>) -> nat
    decreases names.len(),
{
    if names.len() == 0 {
        0
    } else {
        sum_counts(cs, names.drop_last()) + count_matching(cs, names.last())
    }
}

proof fn lemma_selected_empty_names(cs: Seq<Constructor>)
    ensures
        selected_indices(cs, Seq::empty()).len() == 0,
    decreases cs.len(),
{
    if cs.len() > 0 {
        lemma_selected_empty_names(cs.drop_last());
    }
}

proof fn lemma_selected_sum(cs: Seq<Constructor>, names: Seq<Seq<char>>)
    requires
        distinct_names(names),
    ensures
        selected_indices(cs, names).len() == sum_counts(cs, names),
    decreases names.len(),
{
    if names.len() == 0 {
        assert(names =~= Seq::empty());
        lemma_selected_empty_names(cs);
    } else {
        assert(distinct_names(names.drop_last())) by {
            assert(forall|i: int, j: int| 0 <= i < j < names.drop_last().len()
                ==> names.drop_last()[i] == names[i] && names.drop_last()[j] == names[j]);
        }
        assert(!names.drop_last().contains(names.last())) by {
            if names.drop_last().contains(names.last()) {
                let i = choose|i: int| 0 <= i < names.drop_last().len()
                    && names.drop_last()[i] == names.last();
                assert(names[i] == names[names.len() - 1]);
            }
        }
        lemma_selected_split(cs, names);
        lemma_selected_sum(cs, names.drop_last());
    }
}

proof fn lemma_sum_upper(cs: Seq<Constructor>, names: Seq<Seq<char>>)
    requires
        forall|k: int| 0 <= k < names.len()
            ==> #[trigger] count_matching(cs, names[k]) <= 1,
    ensures
        sum_counts(cs, names) <= names.len(),
    decreases names.len(),
{
    if names.len() > 0 {
        assert(forall|k: int| 0 <= k < names.drop_last().len()
            ==> names.drop_last()[k] == names[k]);
        lemma_sum_upper(cs, names.drop_last());
        assert(count_matching(cs, names[names.len() - 1]) <= 1);
    }
}

/// Selection cardinality: for a selection set of distinct mnemonics
/// each carried by exactly one constructor, generation selects exactly
/// as many constructors as the set holds.
pub proof fn lemma_selection_cardinality(cs: Seq<Constructor>, names: Seq<Seq<char>>)
    requires
        distinct_names(names),
        forall|k: int| 0 <= k < names.len()
            ==> #[trigger] count_matching(cs, names[k]) == 1,
    ensures
        selected_indices(cs, names).len() == names.len(),
    decreases names.len(),
{
    lemma_selected_sum(cs, names);
    lemma_sum_all_one(cs, names);
}

proof fn lemma_sum_all_one(cs: Seq<Constructor>, names: Seq<Seq<char>>)
    requires
        forall|k: int| 0 <= k < names.len()
            ==> #[trigger] count_matching(cs, names[k]) == 1,
    ensures
        sum_counts(cs, names) == names.len(),
    decreases names.len(),
{
    if names.len() > 0 {
        assert(forall|k: int| 0 <= k < names.drop_last().len()
            ==> names.drop_last()[k] == names[k]);
        lemma_sum_all_one(cs, names.drop_last());
        assert(count_matching(cs, names[names.len() - 1]) == 1);
    }
}

/// A mnemonic absent from the model: when the distinct selection names
/// are carried by at most one constructor each and one of them by
/// none, fewer constructors are selected than names requested — so the
/// run fails before emitting output.
pub proof fn lemma_selection_absent(cs: Seq<Constructor>, names: Seq<Seq<char>>, k: int)
    requires
        distinct_names(names),
        0 <= k < names.len(),
        count_matching(cs, names[k]) == 0,
        forall|j: int| 0 <= j < names.len()
            ==> #[trigger] count_matching(cs, names[j]) <= 1,
    ensures
        selected_indices(cs, names).len() < names.len(),
    decreases names.len(),
{
    lemma_selected_sum(cs, names);
    lemma_sum_missing(cs, names, k);
}

proof fn lemma_sum_missing(cs: Seq<Constructor>, names: Seq<Seq<char>>, k: int)
    requires
        0 <= k < names.len(),
        count_matching(cs, names[k]) == 0,
        forall|j: int| 0 <= j < names.len()
            ==> #[trigger] count_matching(cs, names[j]) <= 1,
    ensures
        sum_counts(cs, names) < names.len(),
    decreases names.len(),
{
    assert(forall|j: int| 0 <= j < names.drop_last().len()
        ==> names.drop_last()[j] == names[j]);
    if k == names.len() - 1 {
        lemma_sum_upper(cs, names.drop_last());
        assert(count_matching(cs, names[names.len() - 1]) == 0);
    } else {
        lemma_sum_missing(cs, names.drop_last(), k);
        assert(count_matching(cs, names[names.len() - 1]) <= 1);
    }
}

/// Whether a mnemonic is one of the selection strings.
pub fn contains_name(sel: &Vec<String>, name: &str) -> (r: bool)
    ensures
        r == names_of(sel@).contains(name@),
{
    let mut i: usize = 0;
    while i < sel.len()
        invariant
            i <= sel.len(),
            forall|j: int| 0 <= j < i ==> #[trigger] sel@[j]@ != name@,
        decreases sel.len() - i,
    {
        if str_eq(sel[i].as_str(), name) {
            proof {
                assert(names_of(sel@)[i as int] == name@);
            }
            return true;
        }
        i = i + 1;
    }
    proof {
        assert forall|j: int| 0 <= j < names_of(sel@).len()
            implies #[trigger] names_of(sel@)[j] != name@ by {
            assert(sel@[j]@ != name@);
        }
    }
    false
}

/// Selects, in model order, the constructors whose mnemonic is in the
/// selection set.
///
/// Succeeds if and only if the matched-constructor count equals the
/// cardinality of the selection set; any mismatch is a fatal
/// selection error, raised before any output is produced.
pub fn select_constructors(cs: &Vec<Constructor>, sel: &Vec<String>) -> (r: Result<
    Vec<usize>,
    GenError,
>)
    ensures
        r is Ok <==> selected_indices(cs@, names_of(sel@)).len() == sel@.len(),
        r matches Ok(idxs) ==> idxs@.map_values(|u: usize| u as int)
            == selected_indices(cs@, names_of(sel@)),
        r matches Err(err) ==> err == GenError::SelectionMismatch,
{
    let ghost names = names_of(sel@);
    let mut idxs: Vec<usize> = Vec::new();
    let mut i: usize = 0;
    while i < cs.len()
        invariant
            i <= cs.len(),
            names == names_of(sel@),
            idxs@.map_values(|u: usize| u as int) == selected_indices(cs@.take(i as int), names),
        decreases cs.len() - i,
    {
        proof {
            assert(cs@.take(i + 1).drop_last() =~= cs@.take(i as int));
            assert(cs@.take(i + 1).last() == cs@[i as int]);
        }
        let ghost before = idxs@;
        match &cs[i].display.mnemonic {
            Some(m) => {
                if contains_name(sel, m.as_str()) {
                    idxs.push(i);
                    proof {
                        assert(idxs@.map_values(|u: usize| u as int)
                            =~= before.map_values(|u: usize| u as int).push(i as int));
                    }
                }
            },
            None => {
            },
        }
        i = i + 1;
    }
    proof {
        assert(cs@.take(cs@.len() as int) =~= cs@);
    }
    proof {
        assert(idxs@.map_values(|u: usize| u as int).len() == idxs@.len());
    }
    if idxs.len() == sel.len() {
        Ok(idxs)
    } else {
        Err(GenError::SelectionMismatch)
    }
}

} // verus!

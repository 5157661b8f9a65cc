//! Bringing text and file arguments back into the order in which they were given.

use vstd::prelude::*;

verus! {

/// One input of a run: literal text, or the path of a file.
#[derive(Clone, Copy, Debug, PartialEq, Eq)]
pub enum HashInput<'a> {
    Text(&'a str),
    File(&'a str),
}

/// The inputs from the `i`-th text and the `j`-th file on, each with its origin
/// index, in the order of the merge: while both kinds are left, the one with the
/// smaller index goes first (the file on a tie); then what is left of either kind.
pub open spec fn merged<'a>(
    text_indices: Seq<usize>,
    text_values: Seq<&'a str>,
    file_indices: Seq<usize>,
    file_values: Seq<&'a str>,
    i: int,
    j: int,
) -> Seq<(usize, HashInput<'a>)>
    recommends
        text_indices.len() == text_values.len(),
        file_indices.len() == file_values.len(),
    decreases text_indices.len() - i, file_indices.len() - j,
{
    let text_left = 0 <= i < text_indices.len();
    let file_left = 0 <= j < file_indices.len();
    if text_left && (!file_left || text_indices[i] < file_indices[j]) {
        seq![(text_indices[i], HashInput::Text(text_values[i]))] + merged(
            text_indices,
            text_values,
            file_indices,
            file_values,
            i + 1,
            j,
        )
    } else if file_left {
        seq![(file_indices[j], HashInput::File(file_values[j]))] + merged(
            text_indices,
            text_values,
            file_indices,
            file_values,
            i,
            j + 1,
        )
    } else {
        Seq::empty()
    }
}

/// The inputs of a sequence of indexed inputs, without their indices.
pub open spec fn inputs_of<'a>(entries: Seq<(usize, HashInput<'a>)>) -> Seq<HashInput<'a>> {
    Seq::new(entries.len(), |k: int| entries[k].1)
}

/// Whether indices grow strictly from each position to the next.
pub open spec fn ascending(indices: Seq<usize>) -> bool {
    forall|a: int, b: int| 0 <= a < b < indices.len() ==> indices[a] < indices[b]
}

/// Merges the text arguments and the file arguments into one sequence.
/// `text_indices[k]` is the position on the command line of `text_values[k]`,
/// and likewise for files.
pub fn get_inputs<'a>(
    text_indices: &[usize],
    text_values: &[&'a str],
    file_indices: &[usize],
    file_values: &[&'a str],
) -> (inputs: Vec<HashInput<'a>>)
    requires
        text_indices@.len() == text_values@.len(),
        file_indices@.len() == file_values@.len(),
    ensures
        inputs@ == inputs_of(merged(text_indices@, text_values@, file_indices@, file_values@, 0, 0)),
        inputs@.len() == text_indices@.len() + file_indices@.len(),
{
    let ghost all = merged(text_indices@, text_values@, file_indices@, file_values@, 0, 0);
    let ghost mut done: Seq<(usize, HashInput<'a>)> = Seq::empty();
    let mut i: usize = 0;
    let mut j: usize = 0;
    let mut inputs: Vec<HashInput<'a>> = Vec::new();
    while i < text_indices.len() && j < file_indices.len()
        invariant
            text_indices@.len() == text_values@.len(),
            file_indices@.len() == file_values@.len(),
            i <= text_indices@.len(),
            j <= file_indices@.len(),
            done.len() == i + j,
            inputs@ =~= inputs_of(done),
            done + merged(text_indices@, text_values@, file_indices@, file_values@, i as int, j as int)
                =~= all,
        decreases text_indices@.len() - i + file_indices@.len() - j,
    {
        if text_indices[i] < file_indices[j] {
            proof {
                done = done.push((text_indices@[i as int], HashInput::Text(text_values@[i as int])));
            }
            inputs.push(HashInput::Text(text_values[i]));
            i += 1;
        } else {
            proof {
                done = done.push((file_indices@[j as int], HashInput::File(file_values@[j as int])));
            }
            inputs.push(HashInput::File(file_values[j]));
            j += 1;
        }
    }
    while i < text_indices.len()
        invariant
            text_indices@.len() == text_values@.len(),
            i <= text_indices@.len(),
            j <= file_indices@.len(),
            i < text_indices@.len() ==> j == file_indices@.len(),
            done.len() == i + j,
            inputs@ =~= inputs_of(done),
            done + merged(text_indices@, text_values@, file_indices@, file_values@, i as int, j as int)
                =~= all,
        decreases text_indices@.len() - i,
    {
        proof {
            done = done.push((text_indices@[i as int], HashInput::Text(text_values@[i as int])));
        }
        inputs.push(HashInput::Text(text_values[i]));
        i += 1;
    }
    while j < file_indices.len()
        invariant
            file_indices@.len() == file_values@.len(),
            i == text_indices@.len(),
            j <= file_indices@.len(),
            done.len() == i + j,
            inputs@ =~= inputs_of(done),
            done + merged(text_indices@, text_values@, file_indices@, file_values@, i as int, j as int)
                =~= all,
        decreases file_indices@.len() - j,
    {
        proof {
            done = done.push((file_indices@[j as int], HashInput::File(file_values@[j as int])));
        }
        inputs.push(HashInput::File(file_values[j]));
        j += 1;
    }
    assert(done =~= all);
    inputs
}

/// Whether no text index is also a file index.
pub open spec fn disjoint(text_indices: Seq<usize>, file_indices: Seq<usize>) -> bool {
    forall|a: int, b: int|
        0 <= a < text_indices.len() && 0 <= b < file_indices.len() ==> text_indices[a]
            != file_indices[b]
}

proof fn lemma_merged_from<'a>(
    text_indices: Seq<usize>,
    text_values: Seq<&'a str>,
    file_indices: Seq<usize>,
    file_values: Seq<&'a str>,
    i: int,
    j: int,
)
    requires
        text_indices.len() == text_values.len(),
        file_indices.len() == file_values.len(),
        ascending(text_indices),
        ascending(file_indices),
        disjoint(text_indices, file_indices),
        0 <= i <= text_indices.len(),
        0 <= j <= file_indices.len(),
    ensures
        ({
            let m = merged(text_indices, text_values, file_indices, file_values, i, j);
            &&& m.len() == (text_indices.len() - i) + (file_indices.len() - j)
            &&& forall|k: int|
                0 <= k < m.len() ==> (i < text_indices.len() && (#[trigger] m[k]).0
                    >= text_indices[i]) || (j < file_indices.len() && m[k].0 >= file_indices[j])
            &&& forall|a: int, b: int| 0 <= a < b < m.len() ==> m[a].0 < m[b].0
            &&& forall|a: int|
                i <= a < text_indices.len() ==> m.contains(
                    (#[trigger] text_indices[a], HashInput::Text(text_values[a])),
                )
            &&& forall|b: int|
                j <= b < file_indices.len() ==> m.contains(
                    (#[trigger] file_indices[b], HashInput::File(file_values[b])),
                )
        }),
    decreases text_indices.len() - i, file_indices.len() - j,
{
    let m = merged(text_indices, text_values, file_indices, file_values, i, j);
    let text_left = i < text_indices.len();
    let file_left = j < file_indices.len();
    if text_left || file_left {
        let text_first = text_left && (!file_left || text_indices[i] < file_indices[j]);
        let i2 = if text_first { i + 1 } else { i };
        let j2 = if text_first { j } else { j + 1 };
        let rest = merged(text_indices, text_values, file_indices, file_values, i2, j2);
        lemma_merged_from(text_indices, text_values, file_indices, file_values, i2, j2);
        assert(m.len() == rest.len() + 1);
        assert(forall|k: int| 0 < k < m.len() ==> m[k] == rest[k - 1]);
        assert forall|a: int| i2 <= a < text_indices.len() implies m.contains(
            (#[trigger] text_indices[a], HashInput::Text(text_values[a])),
        ) by {
            let e = (text_indices[a], HashInput::Text(text_values[a]));
            assert(rest.contains(e));
            let k = choose|k: int| 0 <= k < rest.len() && rest[k] == e;
            assert(m[k + 1] == e);
        }
        assert forall|b: int| j2 <= b < file_indices.len() implies m.contains(
            (#[trigger] file_indices[b], HashInput::File(file_values[b])),
        ) by {
            let e = (file_indices[b], HashInput::File(file_values[b]));
            assert(rest.contains(e));
            let k = choose|k: int| 0 <= k < rest.len() && rest[k] == e;
            assert(m[k + 1] == e);
        }
        if text_first {
            assert(m[0] == (text_indices[i], HashInput::Text(text_values[i])));
        } else {
            assert(m[0] == (file_indices[j], HashInput::File(file_values[j])));
        }
    }
}

/// Where the indices of each kind grow strictly and no index occurs in both
/// kinds, the merge holds every text and every file exactly once, and its
/// origin indices grow strictly: the inputs stand in the order in which they were given.
pub proof fn lemma_merge_keeps_order<'a>(
    text_indices: Seq<usize>,
    text_values: Seq<&'a str>,
    file_indices: Seq<usize>,
    file_values: Seq<&'a str>,
)
    requires
        text_indices.len() == text_values.len(),
        file_indices.len() == file_values.len(),
        ascending(text_indices),
        ascending(file_indices),
        disjoint(text_indices, file_indices),
    ensures
        ({
            let m = merged(text_indices, text_values, file_indices, file_values, 0, 0);
            &&& m.len() == text_indices.len() + file_indices.len()
            &&& forall|a: int, b: int| 0 <= a < b < m.len() ==> m[a].0 < m[b].0
            &&& forall|a: int|
                0 <= a < text_indices.len() ==> m.contains(
                    (#[trigger] text_indices[a], HashInput::Text(text_values[a])),
                )
            &&& forall|b: int|
                0 <= b < file_indices.len() ==> m.contains(
                    (#[trigger] file_indices[b], HashInput::File(file_values[b])),
                )
        }),
{
    lemma_merged_from(text_indices, text_values, file_indices, file_values, 0, 0);
}

} // verus!

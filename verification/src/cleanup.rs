//! The sweep of output directories.
//!
//! Output directories stand directly in the working directory and bear a
//! name that begins with `OUTPUT-`. The sweep removes them, with all they
//! hold, and touches nothing else.

use crate::text::starts_with;
use vstd::prelude::*;
use vstd::string::*;

verus! {

/// The characters of a [`DirEntry`].
pub ghost struct Listed {
    pub name: Seq<char>,
    pub is_dir: bool,
    pub depth: nat,
}

/// An entry that a walk of the working directory came by.
#[derive(Debug, PartialEq, Eq)]
pub struct DirEntry {
    /// The last component of the entry's path.
    pub name: String,
    /// Whether the entry is a directory.
    pub is_dir: bool,
    /// How far below the working directory the entry is: 1 directly in it.
    pub depth: usize,
}

impl View for DirEntry {
    type V = Listed;

    open spec fn view(&self) -> Listed {
        Listed { name: self.name@, is_dir: self.is_dir, depth: self.depth as nat }
    }
}

/// The entries `v` by their characters.
pub open spec fn listing(v: Seq<DirEntry>) -> Seq<Listed> {
    v.map_values(|e: DirEntry| e@)
}

/// What the name of an output directory begins with: `OUTPUT-`.
pub open spec fn output_prefix() -> Seq<char> {
    seq!['O', 'U', 'T', 'P', 'U', 'T', '-']
}

/// Whether `entry` is an output directory: a directory, directly in the
/// working directory, whose name begins with the output prefix as it is
/// written, capitals included.
pub open spec fn is_output(entry: Listed) -> bool {
    entry.is_dir && entry.depth == 1 && output_prefix().is_prefix_of(entry.name)
}

/// The places in `entries` of what the sweep removes: those of the output
/// directories, in the order of the walk.
pub open spec fn removals(entries: Seq<Listed>) -> Seq<int>
    decreases entries.len(),
{
    if entries.len() == 0 {
        Seq::empty()
    } else if is_output(entries.last()) {
        removals(entries.drop_last()).push(entries.len() - 1)
    } else {
        removals(entries.drop_last())
    }
}

/// The numbers of `v` as integers.
pub open spec fn places(v: Seq<usize>) -> Seq<int> {
    v.map_values(|i: usize| i as int)
}

/// Whether `entry` is an output directory.
pub fn is_output_directory(entry: &DirEntry) -> (b: bool)
    ensures
        b == is_output(entry@),
{
    proof {
        reveal_strlit("OUTPUT-");
        assert("OUTPUT-"@ =~= output_prefix());
    }
    entry.is_dir && entry.depth == 1 && starts_with(entry.name.as_str(), "OUTPUT-")
}

/// The places in `entries` of what is to be removed, with all it holds.
pub fn cleanup_outputs(entries: &Vec<DirEntry>) -> (found: Vec<usize>)
    ensures
        places(found@) == removals(listing(entries@)),
{
    let mut found: Vec<usize> = Vec::new();
    let mut i: usize = 0;
    assert(listing(entries@).take(0) =~= Seq::<Listed>::empty());
    assert(places(found@) =~= Seq::<int>::empty());
    while i < entries.len()
        invariant
            i <= entries.len(),
            places(found@) == removals(listing(entries@).take(i as int)),
        decreases entries.len() - i,
    {
        let ghost seen = listing(entries@).take(i + 1);
        assert(seen.drop_last() =~= listing(entries@).take(i as int));
        assert(seen.last() == entries@[i as int]@);
        if is_output_directory(&entries[i]) {
            let ghost before = places(found@);
            found.push(i);
            assert(places(found@) =~= before.push(i as int));
        }
        i += 1;
    }
    assert(listing(entries@).take(entries@.len() as int) =~= listing(entries@));
    found
}

/// The sweep removes the output directories and nothing else: a place is
/// among the removals exactly if the entry there is an output directory.
pub proof fn lemma_removals_exact(entries: Seq<Listed>, place: int)
    ensures
        removals(entries).contains(place) <==> 0 <= place < entries.len() && is_output(
            entries[place],
        ),
    decreases entries.len(),
{
    if entries.len() > 0 {
        let front = entries.drop_last();
        let all = removals(entries);
        lemma_removals_exact(front, place);
        if all.contains(place) {
            let k = choose|k: int| 0 <= k < all.len() && all[k] == place;
            if !(is_output(entries.last()) && k == removals(front).len()) {
                assert(removals(front)[k] == place);
            }
        }
        if 0 <= place < entries.len() && is_output(entries[place]) {
            if place == entries.len() - 1 {
                assert(all[removals(front).len() as int] == place);
            } else {
                assert(is_output(front[place]));
                let k = choose|k: int|
                    0 <= k < removals(front).len() && removals(front)[k] == place;
                assert(all[k] == place);
            }
        }
    }
}

/// The sweep goes in the order of the walk, and removes nothing twice: the
/// removals are strictly increasing.
pub proof fn lemma_removals_in_order(entries: Seq<Listed>, j: int, k: int)
    requires
        0 <= j < k < removals(entries).len(),
    ensures
        0 <= removals(entries)[j] < removals(entries)[k] < entries.len(),
    decreases entries.len(),
{
    if entries.len() > 0 {
        let front = entries.drop_last();
        if k < removals(front).len() {
            lemma_removals_in_order(front, j, k);
        } else {
            lemma_removals_exact(front, removals(front)[j]);
            assert(removals(front).contains(removals(front)[j]));
        }
    }
}

} // verus!

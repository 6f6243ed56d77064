//! Which models and commands an operation uses, and how many times.

use vstd::prelude::*;

use crate::keyed::{find_key, first_key, has_key, lemma_first_key_unique};
use crate::metadata::resolved::subgraph::Qualified;
use crate::open_dds::names::{CommandName, Ident, ModelName};

verus! {

/// The models and the commands an operation uses, each with the number of
/// times it is used.
#[derive(Debug, PartialEq, Eq)]
pub struct UsagesCounts {
    pub models_used: Vec<(Qualified<ModelName>, usize)>,
    pub commands_used: Vec<(Qualified<CommandName>, usize)>,
}

/// The counts of a list of names, each name by its view.
pub open spec fn counts_view<K: View>(v: Seq<(K, usize)>) -> Seq<(K::V, nat)> {
    v.map_values(|e: (K, usize)| (e.0@, e.1 as nat))
}

/// The counts after one more use of `k`: its count is raised by one where it
/// is there, and it is added with count one at the end otherwise.
pub open spec fn count_one<T>(s: Seq<(T, nat)>, k: T) -> Seq<(T, nat)> {
    if exists|i: int| 0 <= i < s.len() && (#[trigger] s[i]).0 == k {
        let i = choose|i: int| 0 <= i < s.len() && (#[trigger] s[i]).0 == k && forall|j: int| 0 <= j < i ==> s[j].0 != k;
        s.update(i, (k, s[i].1 + 1))
    } else {
        s.push((k, 1nat))
    }
}

impl UsagesCounts {
    /// No model and no command used.
    pub fn new() -> (r: UsagesCounts)
        ensures
            r.models_used@.len() == 0,
            r.commands_used@.len() == 0,
    {
        UsagesCounts { models_used: Vec::new(), commands_used: Vec::new() }
    }
}

proof fn lemma_first_is_choice<K: View>(s: Seq<(K, usize)>, k: K::V, i: int)
    requires
        0 <= i < s.len(),
        s[i].0@ == k,
        forall|j: int| 0 <= j < i ==> (#[trigger] s[j]).0@ != k,
    ensures
        ({
            let c = counts_view(s);
            let ch = choose|x: int| 0 <= x < c.len() && (#[trigger] c[x]).0 == k && forall|j: int| 0 <= j < x ==> c[j].0 != k;
            ch == i
        }),
{
    let c = counts_view(s);
    assert(c[i].0 == k);
    assert(forall|j: int| 0 <= j < i ==> c[j].0 != k);
    let ch = choose|x: int| 0 <= x < c.len() && (#[trigger] c[x]).0 == k && forall|j: int| 0 <= j < x ==> c[j].0 != k;
    assert(0 <= ch < c.len() && c[ch].0 == k && forall|j: int| 0 <= j < ch ==> c[j].0 != k);
    if ch < i {
        assert(s[ch].0@ != k);
    } else if ch > i {
        assert(c[i].0 != k);
    }
}

/// Records one more use of the model.
pub fn count_model(model: Qualified<ModelName>, all_usage_counts: &mut UsagesCounts)
    requires
        forall|i: int| 0 <= i < old(all_usage_counts).models_used@.len() ==> (#[trigger] old(all_usage_counts).models_used@[i]).1 < usize::MAX,
    ensures
        counts_view(final(all_usage_counts).models_used@) == count_one(counts_view(old(all_usage_counts).models_used@), model@),
        final(all_usage_counts).commands_used@ == old(all_usage_counts).commands_used@,
{
    let ghost before = counts_view(all_usage_counts.models_used@);
    match find_key(&all_usage_counts.models_used, &model) {
        Some(i) => {
            proof {
                lemma_first_key_unique(all_usage_counts.models_used@, model@, i as int);
                lemma_first_is_choice(all_usage_counts.models_used@, model@, i as int);
                assert(before[i as int].0 == model@);
            }
            let n = all_usage_counts.models_used[i].1;
            let name = all_usage_counts.models_used[i].0.duplicate();
            all_usage_counts.models_used.set(i, (name, n + 1));
            assert(counts_view(all_usage_counts.models_used@) =~= count_one(before, model@));
        },
        None => {
            proof {
                assert forall|i: int| 0 <= i < before.len() implies (#[trigger] before[i]).0 != model@ by {
                    assert(all_usage_counts.models_used@[i].0@ != model@);
                }
            }
            all_usage_counts.models_used.push((model, 1));
            assert(counts_view(all_usage_counts.models_used@) =~= count_one(before, model@));
        },
    }
}

/// Records one more use of the command.
pub fn count_command(command: Qualified<CommandName>, all_usage_counts: &mut UsagesCounts)
    requires
        forall|i: int| 0 <= i < old(all_usage_counts).commands_used@.len() ==> (#[trigger] old(all_usage_counts).commands_used@[i]).1 < usize::MAX,
    ensures
        counts_view(final(all_usage_counts).commands_used@) == count_one(counts_view(old(all_usage_counts).commands_used@), command@),
        final(all_usage_counts).models_used@ == old(all_usage_counts).models_used@,
{
    let ghost before = counts_view(all_usage_counts.commands_used@);
    match find_key(&all_usage_counts.commands_used, &command) {
        Some(i) => {
            proof {
                lemma_first_key_unique(all_usage_counts.commands_used@, command@, i as int);
                lemma_first_is_choice(all_usage_counts.commands_used@, command@, i as int);
                assert(before[i as int].0 == command@);
            }
            let n = all_usage_counts.commands_used[i].1;
            let name = all_usage_counts.commands_used[i].0.duplicate();
            all_usage_counts.commands_used.set(i, (name, n + 1));
            assert(counts_view(all_usage_counts.commands_used@) =~= count_one(before, command@));
        },
        None => {
            proof {
                assert forall|i: int| 0 <= i < before.len() implies (#[trigger] before[i]).0 != command@ by {
                    assert(all_usage_counts.commands_used@[i].0@ != command@);
                }
            }
            all_usage_counts.commands_used.push((command, 1));
            assert(counts_view(all_usage_counts.commands_used@) =~= count_one(before, command@));
        },
    }
}

} // verus!

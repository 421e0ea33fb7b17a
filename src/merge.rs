//! Merging an experiment's settings into the baseline, and the environment
//! that the build tool sees for a merged configuration.

use vstd::prelude::*;
use crate::model::{DefinedItem, KnobView, SettingView, clone_items, same_knob, settings_view};

verus! {

/// The first position of knob `k` in `base`, or -1 where it is absent.
pub open spec fn knob_index(base: Seq<SettingView>, k: KnobView) -> int
    decreases base.len(),
{
    if base.len() == 0 {
        -1
    } else {
        let r = knob_index(base.drop_last(), k);
        if r >= 0 {
            r
        } else if base.last().0 == k {
            base.len() - 1
        } else {
            -1
        }
    }
}

/// `base` has a setting of knob `k`.
pub open spec fn has_knob(base: Seq<SettingView>, k: KnobView) -> bool {
    exists|j: int| 0 <= j < base.len() && base[j].0 == k
}

/// Every setting of `items` is of a knob that `base` has.
pub open spec fn all_known(base: Seq<SettingView>, items: Seq<SettingView>) -> bool {
    forall|i: int| 0 <= i < items.len() ==> has_knob(base, #[trigger] items[i].0)
}

/// `base` with the value of knob `s.0` replaced by `s.1` at its first
/// position; `base` itself where the knob is absent.
pub open spec fn apply_setting(base: Seq<SettingView>, s: SettingView) -> Seq<SettingView> {
    let j = knob_index(base, s.0);
    if j >= 0 {
        base.update(j, s)
    } else {
        base
    }
}

/// `base` with the settings of `items` applied one after the other.
pub open spec fn merge_spec(base: Seq<SettingView>, items: Seq<SettingView>) -> Seq<SettingView>
    decreases items.len(),
{
    if items.len() == 0 {
        base
    } else {
        apply_setting(merge_spec(base, items.drop_last()), items.last())
    }
}

/// The environment of a configuration: each knob's variable with its value,
/// in configuration order.
pub open spec fn envs_of(items: Seq<SettingView>) -> Seq<(Seq<char>, Seq<char>)> {
    items.map_values(|s: SettingView| (s.0.env_var, s.1))
}

/// The views of a list of environment assignments.
pub open spec fn env_view(v: Seq<(String, String)>) -> Seq<(Seq<char>, Seq<char>)> {
    v.map_values(|p: (String, String)| (p.0@, p.1@))
}

/// `knob_index` is the first position of the knob, or -1 when none has it.
pub proof fn lemma_knob_index(base: Seq<SettingView>, k: KnobView)
    ensures
        -1 <= knob_index(base, k) < base.len(),
        knob_index(base, k) >= 0 ==> base[knob_index(base, k)].0 == k,
        forall|m: int|
            0 <= m < base.len() && (knob_index(base, k) < 0 || m < knob_index(base, k))
                ==> #[trigger] base[m].0 != k,
    decreases base.len(),
{
    if base.len() > 0 {
        let rest = base.drop_last();
        lemma_knob_index(rest, k);
        assert forall|m: int|
            0 <= m < base.len() && (knob_index(base, k) < 0 || m < knob_index(base, k))
                implies #[trigger] base[m].0 != k by {
            if m < rest.len() {
                assert(base[m] == rest[m]);
            }
        }
    }
}

/// Merging keeps the length and the knob at every position.
pub proof fn lemma_merge_keeps_knobs(base: Seq<SettingView>, items: Seq<SettingView>)
    ensures
        merge_spec(base, items).len() == base.len(),
        forall|j: int| 0 <= j < base.len() ==> #[trigger] merge_spec(base, items)[j].0 == base[j].0,
    decreases items.len(),
{
    if items.len() > 0 {
        let m = merge_spec(base, items.drop_last());
        lemma_merge_keeps_knobs(base, items.drop_last());
        lemma_knob_index(m, items.last().0);
    }
}

/// The first position in `v` of the knob of `item`, if any.
fn find_knob(v: &Vec<DefinedItem>, item: &DefinedItem) -> (r: Option<usize>)
    ensures
        match r {
            Some(j) => j < v@.len() && v@[j as int].item@ == item.item@ && forall|m: int|
                0 <= m < j ==> #[trigger] v@[m].item@ != item.item@,
            None => forall|m: int| 0 <= m < v@.len() ==> #[trigger] v@[m].item@ != item.item@,
        },
{
    let mut j: usize = 0;
    while j < v.len()
        invariant
            j <= v@.len(),
            forall|m: int| 0 <= m < j ==> #[trigger] v@[m].item@ != item.item@,
        decreases v@.len() - j,
    {
        if same_knob(&v[j].item, &item.item) {
            return Some(j);
        }
        j += 1;
    }
    None
}

/// Why a merge failed.
pub enum MergeError {
    /// The setting at `position` is of a knob that the baseline lacks.
    UnknownKnob { position: usize },
}

/// The complete configuration of an experiment: the baseline with each of
/// `items` replacing the value of its knob, in order. A setting of a knob
/// that the baseline lacks is refused, with the position of the first one.
pub fn merge_items(baseline: &Vec<DefinedItem>, items: &Vec<DefinedItem>) -> (r: Result<
    Vec<DefinedItem>,
    MergeError,
>)
    ensures
        match r {
            Ok(m) => all_known(settings_view(baseline@), settings_view(items@)) && settings_view(m@)
                == merge_spec(settings_view(baseline@), settings_view(items@)),
            Err(MergeError::UnknownKnob { position }) => {
                &&& position < items@.len()
                &&& !has_knob(settings_view(baseline@), items@[position as int].item@)
                &&& forall|q: int|
                    0 <= q < position ==> has_knob(
                        settings_view(baseline@),
                        #[trigger] items@[q].item@,
                    )
            },
        },
{
    let ghost base = settings_view(baseline@);
    let ghost its = settings_view(items@);
    let mut new = clone_items(baseline);
    let mut i: usize = 0;
    while i < items.len()
        invariant
            i <= items@.len(),
            base == settings_view(baseline@),
            its == settings_view(items@),
            settings_view(new@) == merge_spec(base, its.take(i as int)),
            forall|q: int| 0 <= q < i ==> has_knob(base, #[trigger] items@[q].item@),
        decreases items@.len() - i,
    {
        let item = &items[i];
        let ghost cur = settings_view(new@);
        proof {
            lemma_merge_keeps_knobs(base, its.take(i as int));
            lemma_knob_index(cur, item.item@);
        }
        let found = find_knob(&new, item);
        if found.is_none() {
            proof {
                if has_knob(base, item.item@) {
                    let w = choose|w: int| 0 <= w < base.len() && base[w].0 == item.item@;
                    assert(cur[w].0 == base[w].0);
                }
            }
            return Err(MergeError::UnknownKnob { position: i });
        }
        let j = found.unwrap();
        proof {
            let ki = knob_index(cur, item.item@);
            assert(cur[j as int].0 == new@[j as int].item@);
            if ki < j {
                if ki >= 0 {
                    assert(cur[ki].0 == new@[ki].item@);
                }
            }
            assert(ki == j);
        }
        new.set(j, item.clone());
        proof {
            assert(its.take(i as int + 1).drop_last() =~= its.take(i as int));
            assert(its.take(i as int + 1).last() == item@);
            assert(settings_view(new@) =~= cur.update(j as int, item@));
            assert(cur[j as int].0 == base[j as int].0);
        }
        i += 1;
    }
    assert(its.take(i as int) =~= its);
    Ok(new)
}

/// The environment assignments of a configuration, in its order; where two
/// knobs share a variable, the later assignment is the one that holds.
pub fn items_to_envs(items: &Vec<DefinedItem>) -> (r: Vec<(String, String)>)
    ensures
        env_view(r@) == envs_of(settings_view(items@)),
{
    let mut r: Vec<(String, String)> = Vec::new();
    let mut i: usize = 0;
    while i < items.len()
        invariant
            i <= items@.len(),
            r@.len() == i,
            forall|j: int|
                0 <= j < i ==> (#[trigger] r@[j]).0@ == items@[j].item.env_var@ && r@[j].1@
                    == items@[j].value@,
        decreases items@.len() - i,
    {
        r.push((items[i].item.env_var.clone(), items[i].value.clone()));
        i += 1;
    }
    assert(env_view(r@) =~= envs_of(settings_view(items@)));
    r
}

/// Merging a single setting of a knob that the baseline has changes the
/// value at that knob's position and nothing else.
pub proof fn lemma_merge_single(base: Seq<SettingView>, s: SettingView)
    requires
        has_knob(base, s.0),
    ensures
        0 <= knob_index(base, s.0) < base.len(),
        base[knob_index(base, s.0)].0 == s.0,
        merge_spec(base, seq![s]) == base.update(knob_index(base, s.0), (base[knob_index(base, s.0)].0, s.1)),
{
    lemma_knob_index(base, s.0);
    let w = choose|w: int| 0 <= w < base.len() && base[w].0 == s.0;
    assert(base[w].0 == s.0);
    assert(seq![s].drop_last() =~= Seq::<SettingView>::empty());
    assert(merge_spec(base, Seq::<SettingView>::empty()) == base);
    assert(merge_spec(base, seq![s]) == apply_setting(base, s));
}

} // verus!

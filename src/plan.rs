//! The knob catalog and the plan built from it: the baseline and the
//! ordered, non-redundant single-knob experiments.

use vstd::prelude::*;
use vstd::string::*;
use crate::model::{
    ConfigItem, DefinedItem, Experiment, KnobView, Plan, SettingView, State, experiments_view,
    same_knob, same_string, settings_view, strings_view,
};

verus! {

/// The views of a catalog.
pub open spec fn knobs_view(v: Seq<ConfigItem>) -> Seq<KnobView> {
    v.map_values(|c: ConfigItem| c@)
}

/// The views of a sequence of string slices.
pub open spec fn strs_view(v: Seq<&str>) -> Seq<Seq<char>> {
    v.map_values(|s: &str| s@)
}

/// Builds one knob of the catalog.
fn knob(path: &str, env_var: &str, values: &[&str], default: &str) -> (r: ConfigItem)
    ensures
        r@ == (KnobView {
            path: path@,
            env_var: env_var@,
            values: strs_view(values@),
            default: default@,
        }),
{
    let mut vals: Vec<String> = Vec::new();
    let mut i: usize = 0;
    while i < values.len()
        invariant
            i <= values@.len(),
            vals@.len() == i,
            forall|j: int| 0 <= j < i ==> vals@[j]@ == values@[j]@,
        decreases values@.len() - i,
    {
        vals.push(String::from_str(values[i]));
        i += 1;
    }
    assert(strings_view(vals@) =~= strs_view(values@));
    ConfigItem {
        path: String::from_str(path),
        env_var: String::from_str(env_var),
        values: vals,
        default: String::from_str(default),
    }
}

/// The knobs of a release profile that a sweep tries, in the order in
/// which their experiments are planned.
pub fn config_items() -> (r: Vec<ConfigItem>)
    ensures
        r@.len() == 9,
        knobs_view(r@) == default_catalog(),
{
    let mut r: Vec<ConfigItem> = Vec::new();
    let k0 = knob("profile.release.opt-level", "CARGO_PROFILE_RELEASE_OPT_LEVEL", &["0", "1", "2", "3"], "3");
    assert(k0@.values =~= default_catalog()[0].values);
    r.push(k0);
    let k1 = knob("profile.release.debug", "CARGO_PROFILE_RELEASE_DEBUG", &["false", "1", "true"], "false");
    assert(k1@.values =~= default_catalog()[1].values);
    r.push(k1);
    let k2 = knob("profile.release.rpath", "CARGO_PROFILE_RELEASE_RPATH", &[], "false");
    assert(k2@.values =~= default_catalog()[2].values);
    r.push(k2);
    let k3 = knob("profile.release.lto", "CARGO_PROFILE_RELEASE_LTO", &["false", "thin", "true"], "true");
    assert(k3@.values =~= default_catalog()[3].values);
    r.push(k3);
    let k4 = knob("profile.release.debug-assertions", "CARGO_PROFILE_RELEASE_DEBUG_ASSERTIONS", &["false", "true"], "false");
    assert(k4@.values =~= default_catalog()[4].values);
    r.push(k4);
    let k5 = knob("profile.release.codegen-units", "CARGO_PROFILE_RELEASE_CODEGEN_UNITS", &["1", "4", "16"], "1");
    assert(k5@.values =~= default_catalog()[5].values);
    r.push(k5);
    let k6 = knob("profile.release.panic", "CARGO_PROFILE_RELEASE_PANIC", &[], "unwind");
    assert(k6@.values =~= default_catalog()[6].values);
    r.push(k6);
    let k7 = knob("profile.release.incremental", "CARGO_PROFILE_RELEASE_INCREMENTAL", &["false", "true"], "false");
    assert(k7@.values =~= default_catalog()[7].values);
    r.push(k7);
    let k8 = knob("profile.release.overflow-checks", "CARGO_PROFILE_RELEASE_OVERFLOW_CHECKS", &["false", "true"], "false");
    assert(k8@.values =~= default_catalog()[8].values);
    r.push(k8);
    assert(knobs_view(r@) =~= default_catalog());
    r
}

/// A knob as the catalog writes it.
pub open spec fn knob_of(path: &str, env_var: &str, values: Seq<&str>, default: &str) -> KnobView {
    KnobView { path: path@, env_var: env_var@, values: strs_view(values), default: default@ }
}

/// The catalog that `config_items` builds.
pub open spec fn default_catalog() -> Seq<KnobView> {
    seq![
        knob_of("profile.release.opt-level", "CARGO_PROFILE_RELEASE_OPT_LEVEL", seq!["0", "1", "2", "3"], "3"),
        knob_of("profile.release.debug", "CARGO_PROFILE_RELEASE_DEBUG", seq!["false", "1", "true"], "false"),
        knob_of("profile.release.rpath", "CARGO_PROFILE_RELEASE_RPATH", seq![], "false"),
        knob_of("profile.release.lto", "CARGO_PROFILE_RELEASE_LTO", seq!["false", "thin", "true"], "true"),
        knob_of("profile.release.debug-assertions", "CARGO_PROFILE_RELEASE_DEBUG_ASSERTIONS", seq!["false", "true"], "false"),
        knob_of("profile.release.codegen-units", "CARGO_PROFILE_RELEASE_CODEGEN_UNITS", seq!["1", "4", "16"], "1"),
        knob_of("profile.release.panic", "CARGO_PROFILE_RELEASE_PANIC", seq![], "unwind"),
        knob_of("profile.release.incremental", "CARGO_PROFILE_RELEASE_INCREMENTAL", seq!["false", "true"], "false"),
        knob_of("profile.release.overflow-checks", "CARGO_PROFILE_RELEASE_OVERFLOW_CHECKS", seq!["false", "true"], "false"),
    ]
}

/// The baseline of a catalog: every knob at its default, in catalog order.
pub open spec fn baseline_of(cat: Seq<KnobView>) -> Seq<SettingView> {
    cat.map_values(|k: KnobView| (k, k.default))
}

/// The single-setting experiments for knob `k` over `vals`, in order,
/// leaving out each one that the baseline already holds.
pub open spec fn value_cases(k: KnobView, vals: Seq<Seq<char>>, base: Seq<SettingView>) -> Seq<
    Seq<SettingView>,
>
    decreases vals.len(),
{
    if vals.len() == 0 {
        Seq::empty()
    } else {
        let rest = value_cases(k, vals.drop_last(), base);
        let s = (k, vals.last());
        if base.contains(s) {
            rest
        } else {
            rest.push(seq![s])
        }
    }
}

/// The single-setting experiments of every knob, knob by knob in catalog
/// order.
pub open spec fn knob_cases(cat: Seq<KnobView>, base: Seq<SettingView>) -> Seq<Seq<SettingView>>
    decreases cat.len(),
{
    if cat.len() == 0 {
        Seq::empty()
    } else {
        knob_cases(cat.drop_last(), base) + value_cases(cat.last(), cat.last().values, base)
    }
}

/// The cases of a plan: the unmodified baseline first, then the
/// single-setting experiments.
pub open spec fn plan_cases(cat: Seq<KnobView>) -> Seq<Seq<SettingView>> {
    seq![Seq::<SettingView>::empty()] + knob_cases(cat, baseline_of(cat))
}

/// Tells whether `base` holds a setting equal to `d` in knob and value.
pub fn contains_setting(base: &Vec<DefinedItem>, d: &DefinedItem) -> (r: bool)
    ensures
        r == settings_view(base@).contains(d@),
{
    let mut i: usize = 0;
    while i < base.len()
        invariant
            i <= base@.len(),
            forall|j: int| 0 <= j < i ==> base@[j]@ != d@,
        decreases base@.len() - i,
    {
        if same_knob(&base[i].item, &d.item) && same_string(&base[i].value, &d.value) {
            assert(settings_view(base@)[i as int] == d@);
            return true;
        }
        i += 1;
    }
    proof {
        if settings_view(base@).contains(d@) {
            let j = choose|j: int| 0 <= j < settings_view(base@).len() && settings_view(base@)[j] == d@;
            assert(base@[j]@ == d@);
        }
    }
    false
}

/// Builds the plan of a catalog: the baseline, then the cases in the order
/// of `plan_cases`.
pub fn make_plan(catalog: &Vec<ConfigItem>) -> (p: Plan)
    ensures
        settings_view(p.baseline@) == baseline_of(knobs_view(catalog@)),
        experiments_view(p.cases@) == plan_cases(knobs_view(catalog@)),
{
    let ghost cat = knobs_view(catalog@);
    let mut baseline: Vec<DefinedItem> = Vec::new();
    let mut i: usize = 0;
    while i < catalog.len()
        invariant
            i <= catalog@.len(),
            cat == knobs_view(catalog@),
            baseline@.len() == i,
            forall|j: int| 0 <= j < i ==> #[trigger] baseline@[j]@ == (cat[j], cat[j].default),
        decreases catalog@.len() - i,
    {
        let c = &catalog[i];
        baseline.push(DefinedItem { item: c.clone(), value: c.default.clone() });
        i += 1;
    }
    assert(settings_view(baseline@) =~= baseline_of(cat));
    let ghost base = baseline_of(cat);

    let mut cases: Vec<Experiment> = Vec::new();
    let empty = Experiment { configs: Vec::new() };
    assert(empty@ =~= Seq::<SettingView>::empty());
    cases.push(empty);
    assert(experiments_view(cases@) =~= seq![Seq::<SettingView>::empty()]);
    i = 0;
    while i < catalog.len()
        invariant
            i <= catalog@.len(),
            cat == knobs_view(catalog@),
            settings_view(baseline@) == base,
            experiments_view(cases@) =~= seq![Seq::<SettingView>::empty()] + knob_cases(
                cat.take(i as int),
                base,
            ),
        decreases catalog@.len() - i,
    {
        let c = &catalog[i];
        let ghost before = experiments_view(cases@);
        let mut j: usize = 0;
        while j < c.values.len()
            invariant
                i < catalog@.len(),
                j <= c.values@.len(),
                c == catalog@[i as int],
                cat == knobs_view(catalog@),
                settings_view(baseline@) == base,
                experiments_view(cases@) =~= before + value_cases(
                    cat[i as int],
                    cat[i as int].values.take(j as int),
                    base,
                ),
            decreases c.values@.len() - j,
        {
            let d = DefinedItem { item: c.clone(), value: c.values[j].clone() };
            let ghost vals = cat[i as int].values.take(j as int + 1);
            assert(vals.drop_last() =~= cat[i as int].values.take(j as int));
            assert(d@ == (cat[i as int], vals.last()));
            if !contains_setting(&baseline, &d) {
                let mut configs: Vec<DefinedItem> = Vec::new();
                configs.push(d);
                let e = Experiment { configs };
                assert(e@ =~= seq![(cat[i as int], vals.last())]);
                let ghost old_cases = cases@;
                cases.push(e);
                assert(experiments_view(cases@) =~= experiments_view(old_cases).push(e@));
            }
            j += 1;
        }
        proof {
            assert(cat[i as int].values.take(j as int) =~= cat[i as int].values);
            assert(cat.take(i as int + 1).drop_last() =~= cat.take(i as int));
        }
        i += 1;
    }
    assert(cat.take(i as int) =~= cat);
    Plan { baseline, cases }
}

/// A fresh state: the plan of the default catalog and no results.
pub fn new_state() -> (s: State)
    ensures
        settings_view(s.plan.baseline@) == baseline_of(default_catalog()),
        experiments_view(s.plan.cases@) == plan_cases(default_catalog()),
        s.results@.len() == 0,
{
    let catalog = config_items();
    State { plan: make_plan(&catalog), results: Vec::new() }
}

/// Each single-setting experiment of one knob sets that knob, to a value
/// that the baseline does not hold.
proof fn lemma_value_cases(k: KnobView, vals: Seq<Seq<char>>, base: Seq<SettingView>)
    ensures
        forall|i: int|
            0 <= i < value_cases(k, vals, base).len() ==> {
                let e = #[trigger] value_cases(k, vals, base)[i];
                e.len() == 1 && e[0].0 == k && !base.contains(e[0])
            },
    decreases vals.len(),
{
    if vals.len() > 0 {
        let rest = value_cases(k, vals.drop_last(), base);
        lemma_value_cases(k, vals.drop_last(), base);
        let s = (k, vals.last());
        if !base.contains(s) {
            assert forall|i: int| 0 <= i < value_cases(k, vals, base).len() implies {
                let e = #[trigger] value_cases(k, vals, base)[i];
                e.len() == 1 && e[0].0 == k && !base.contains(e[0])
            } by {
                if i < rest.len() {
                    assert(value_cases(k, vals, base)[i] == rest[i]);
                } else {
                    assert(value_cases(k, vals, base)[i] == seq![s]);
                }
            }
        }
    }
}

/// Each single-setting experiment of a catalog sets a knob of it, to a
/// value that the baseline does not hold.
proof fn lemma_knob_cases(cat: Seq<KnobView>, base: Seq<SettingView>)
    ensures
        forall|i: int|
            0 <= i < knob_cases(cat, base).len() ==> {
                let e = #[trigger] knob_cases(cat, base)[i];
                e.len() == 1 && cat.contains(e[0].0) && !base.contains(e[0])
            },
    decreases cat.len(),
{
    if cat.len() > 0 {
        let rest = cat.drop_last();
        lemma_knob_cases(rest, base);
        lemma_value_cases(cat.last(), cat.last().values, base);
        let a = knob_cases(rest, base);
        let b = value_cases(cat.last(), cat.last().values, base);
        assert forall|i: int| 0 <= i < knob_cases(cat, base).len() implies {
            let e = #[trigger] knob_cases(cat, base)[i];
            e.len() == 1 && cat.contains(e[0].0) && !base.contains(e[0])
        } by {
            if i < a.len() {
                assert(knob_cases(cat, base)[i] == a[i]);
                let j = choose|j: int| 0 <= j < rest.len() && rest[j] == a[i][0].0;
                assert(cat[j] == rest[j]);
            } else {
                assert(knob_cases(cat, base)[i] == b[i - a.len()]);
                assert(cat[cat.len() - 1] == cat.last());
            }
        }
    }
}

/// A plan never measures the baseline twice: its first case overrides
/// nothing, and every later case sets exactly one knob of the catalog to a
/// value other than that knob's default, a setting that the baseline does
/// not hold.
pub proof fn lemma_plan_not_redundant(cat: Seq<KnobView>)
    ensures
        plan_cases(cat).len() >= 1,
        plan_cases(cat)[0].len() == 0,
        forall|i: int|
            1 <= i < plan_cases(cat).len() ==> {
                let e = #[trigger] plan_cases(cat)[i];
                &&& e.len() == 1
                &&& cat.contains(e[0].0)
                &&& e[0].1 != e[0].0.default
                &&& !baseline_of(cat).contains(e[0])
            },
{
    let base = baseline_of(cat);
    lemma_knob_cases(cat, base);
    assert forall|i: int| 1 <= i < plan_cases(cat).len() implies {
        let e = #[trigger] plan_cases(cat)[i];
        &&& e.len() == 1
        &&& cat.contains(e[0].0)
        &&& e[0].1 != e[0].0.default
        &&& !base.contains(e[0])
    } by {
        let e = plan_cases(cat)[i];
        assert(e == knob_cases(cat, base)[i - 1]);
        let k = e[0].0;
        let j = choose|j: int| 0 <= j < cat.len() && cat[j] == k;
        assert(base[j] == (k, k.default));
        if e[0].1 == k.default {
            assert(base.contains(e[0]));
        }
    }
}

} // verus!

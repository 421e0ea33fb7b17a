//! The data of a sweep: knobs, settings, experiments, the plan, results and
//! the persisted state, each with its mathematical view.

use vstd::prelude::*;
use vstd::string::*;

verus! {

/// What a knob is, as plain sequences.
pub struct KnobView {
    pub path: Seq<char>,
    pub env_var: Seq<char>,
    pub values: Seq<Seq<char>>,
    pub default: Seq<char>,
}

/// A knob paired with a chosen value.
pub type SettingView = (KnobView, Seq<char>);

/// The views of a sequence of strings.
pub open spec fn strings_view(v: Seq<String>) -> Seq<Seq<char>> {
    v.map_values(|s: String| s@)
}

/// One tunable knob of the build profile: its dotted profile key, the
/// environment variable that sets it, the values to try and its default.
pub struct ConfigItem {
    pub path: String,
    pub env_var: String,
    pub values: Vec<String>,
    pub default: String,
}

impl View for ConfigItem {
    type V = KnobView;

    open spec fn view(&self) -> KnobView {
        KnobView {
            path: self.path@,
            env_var: self.env_var@,
            values: strings_view(self.values@),
            default: self.default@,
        }
    }
}

/// Copies a vector of strings, element by element.
pub fn clone_strings(v: &Vec<String>) -> (r: Vec<String>)
    ensures
        strings_view(r@) == strings_view(v@),
{
    let mut r: Vec<String> = Vec::new();
    let mut i: usize = 0;
    while i < v.len()
        invariant
            i <= v@.len(),
            r@.len() == i,
            forall|j: int| 0 <= j < i ==> r@[j]@ == v@[j]@,
        decreases v@.len() - i,
    {
        let s = v[i].clone();
        assert(s == v@[i as int]);
        r.push(s);
        i += 1;
    }
    assert(strings_view(r@) =~= strings_view(v@));
    r
}

impl Clone for ConfigItem {
    fn clone(&self) -> (r: Self)
        ensures
            r@ == self@,
    {
        ConfigItem {
            path: self.path.clone(),
            env_var: self.env_var.clone(),
            values: clone_strings(&self.values),
            default: self.default.clone(),
        }
    }
}

/// Tells whether two strings hold the same characters.
pub fn same_string(a: &String, b: &String) -> (r: bool)
    ensures
        r == (a@ == b@),
{
    *a == *b
}

/// Tells whether two knobs agree in every field.
pub fn same_knob(a: &ConfigItem, b: &ConfigItem) -> (r: bool)
    ensures
        r == (a@ == b@),
{
    if !same_string(&a.path, &b.path) || !same_string(&a.env_var, &b.env_var)
        || !same_string(&a.default, &b.default) || a.values.len() != b.values.len() {
        proof {
            if a.values.len() != b.values.len() {
                assert(a@.values.len() != b@.values.len());
            }
        }
        return false;
    }
    let mut i: usize = 0;
    while i < a.values.len()
        invariant
            i <= a.values@.len(),
            a.values@.len() == b.values@.len(),
            a.path@ == b.path@,
            a.env_var@ == b.env_var@,
            a.default@ == b.default@,
            forall|j: int| 0 <= j < i ==> a.values@[j]@ == b.values@[j]@,
        decreases a.values@.len() - i,
    {
        if !same_string(&a.values[i], &b.values[i]) {
            proof {
                assert(a@.values[i as int] != b@.values[i as int]);
            }
            return false;
        }
        i += 1;
    }
    proof {
        assert(a@.values =~= b@.values);
    }
    true
}

/// A knob pinned to one value.
pub struct DefinedItem {
    pub item: ConfigItem,
    pub value: String,
}

impl View for DefinedItem {
    type V = SettingView;

    open spec fn view(&self) -> SettingView {
        (self.item@, self.value@)
    }
}

impl Clone for DefinedItem {
    fn clone(&self) -> (r: Self)
        ensures
            r@ == self@,
    {
        DefinedItem { item: self.item.clone(), value: self.value.clone() }
    }
}

/// The views of a sequence of settings.
pub open spec fn settings_view(v: Seq<DefinedItem>) -> Seq<SettingView> {
    v.map_values(|d: DefinedItem| d@)
}

/// Copies a vector of settings, element by element.
pub fn clone_items(v: &Vec<DefinedItem>) -> (r: Vec<DefinedItem>)
    ensures
        settings_view(r@) == settings_view(v@),
{
    let mut r: Vec<DefinedItem> = Vec::new();
    let mut i: usize = 0;
    while i < v.len()
        invariant
            i <= v@.len(),
            r@.len() == i,
            forall|j: int| 0 <= j < i ==> r@[j]@ == v@[j]@,
        decreases v@.len() - i,
    {
        let d = v[i].clone();
        r.push(d);
        i += 1;
    }
    assert(settings_view(r@) =~= settings_view(v@));
    r
}

/// One planned trial: the settings it overrides on top of the baseline.
/// No settings at all is the unmodified baseline.
pub struct Experiment {
    pub configs: Vec<DefinedItem>,
}

impl View for Experiment {
    type V = Seq<SettingView>;

    open spec fn view(&self) -> Seq<SettingView> {
        settings_view(self.configs@)
    }
}

impl Clone for Experiment {
    fn clone(&self) -> (r: Self)
        ensures
            r@ == self@,
    {
        Experiment { configs: clone_items(&self.configs) }
    }
}

/// The views of a sequence of experiments.
pub open spec fn experiments_view(v: Seq<Experiment>) -> Seq<Seq<SettingView>> {
    v.map_values(|e: Experiment| e@)
}

/// The label of one setting, `path=value,`.
pub open spec fn setting_label(s: SettingView) -> Seq<char> {
    s.0.path + "="@ + s.1 + ","@
}

/// The labels of the settings, one after the other.
pub open spec fn settings_label(v: Seq<SettingView>) -> Seq<char>
    decreases v.len(),
{
    if v.len() == 0 {
        Seq::empty()
    } else {
        settings_label(v.drop_last()) + setting_label(v.last())
    }
}

/// How an experiment is named in logs: `(baseline)` when it overrides
/// nothing, else its settings' labels.
pub open spec fn experiment_label(v: Seq<SettingView>) -> Seq<char> {
    if v.len() == 0 {
        "(baseline)"@
    } else {
        settings_label(v)
    }
}

impl Experiment {
    /// The experiment's name for logs.
    pub fn display(&self) -> (r: String)
        ensures
            r@ == experiment_label(self@),
    {
        if self.configs.len() == 0 {
            return String::from_str("(baseline)");
        }
        let mut buf = String::new();
        let mut i: usize = 0;
        while i < self.configs.len()
            invariant
                i <= self.configs@.len(),
                buf@ == settings_label(self@.take(i as int)),
            decreases self.configs@.len() - i,
        {
            let d = &self.configs[i];
            buf.append(d.item.path.as_str());
            buf.append("=");
            buf.append(d.value.as_str());
            buf.append(",");
            proof {
                assert(self@.take(i as int + 1).drop_last() =~= self@.take(i as int));
            }
            i += 1;
        }
        assert(self@.take(i as int) =~= self@);
        buf
    }
}

/// The timings of one finished experiment, in nanoseconds of a monotonic
/// clock. `run_time` is the second build-and-run invocation, which includes
/// whatever incremental build is left.
#[derive(Clone, Copy)]
pub struct ExpResult {
    pub build_time: u64,
    pub run_time: u64,
}

/// The total time of a result.
pub open spec fn total_time(r: ExpResult) -> int {
    r.build_time + r.run_time
}

/// The baseline configuration and the ordered experiments; results align
/// with `cases` by index.
pub struct Plan {
    pub baseline: Vec<DefinedItem>,
    pub cases: Vec<Experiment>,
}

/// What is persisted: the plan and the results of the first
/// `results.len()` cases, in order.
pub struct State {
    pub plan: Plan,
    pub results: Vec<ExpResult>,
}

impl State {
    /// The results form a prefix of the cases.
    pub open spec fn wf(&self) -> bool {
        self.results@.len() <= self.plan.cases@.len()
    }

    /// Every case has its result.
    pub open spec fn complete(&self) -> bool {
        self.results@.len() == self.plan.cases@.len()
    }

    /// Checks that the results are no longer than the cases.
    pub fn validate(&self) -> (r: bool)
        ensures
            r == self.wf(),
    {
        self.results.len() <= self.plan.cases.len()
    }
}

} // verus!

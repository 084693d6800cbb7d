use vstd::prelude::*;

use crate::strutil::{
    is_float_literal, is_float_text, parse_bool, parse_i64, spec_parse_bool, spec_parse_i64,
    str_eq,
};

verus! {

/// One externally executed build target, together with its display text and
/// an optional metric kind ("bool", "int" or "float").
pub struct Rule {
    pub target: String,
    pub fail_okay: Option<bool>,
    pub wait_text: Option<String>,
    pub pass_text: Option<String>,
    pub fail_text: Option<String>,
    pub help_text: Option<String>,
    pub kind: Option<String>,
}

/// An ordered group of rules sharing gating flags and a default fail
/// tolerance. Execution order equals declaration order.
pub struct Ruleset {
    pub on_grade: Option<bool>,
    pub on_submit: Option<bool>,
    pub fail_okay: Option<bool>,
    pub rules: Vec<Rule>,
}

/// Outcome of a rule whose failure is not tolerated: it halts the remainder
/// of its ruleset.
#[derive(Clone, Copy, PartialEq, Eq, Structural, Debug)]
pub struct SubmissionFatal;

impl Rule {
    /// The tolerance that governs this rule: its own `fail_okay` if set,
    /// else the ruleset-level default, else `false`.
    pub open spec fn spec_effective_fail_okay(&self, ruleset_default: Option<bool>) -> bool {
        match self.fail_okay {
            Some(b) => b,
            None => match ruleset_default {
                Some(b) => b,
                None => false,
            },
        }
    }

    pub fn effective_fail_okay(&self, ruleset_default: Option<bool>) -> (r: bool)
        ensures
            r == self.spec_effective_fail_okay(ruleset_default),
    {
        match self.fail_okay {
            Some(b) => b,
            None => match ruleset_default {
                Some(b) => b,
                None => false,
            },
        }
    }
}

/// Runs the decision half of one rule: how the exit of its external command
/// is counted. `launch` is `None` when the command could not be run at all,
/// which is fatal regardless of tolerance; otherwise it carries the command's
/// success. `Ok(true)` is a pass, `Ok(false)` a tolerated failure.
pub fn run_rule(rule: &Rule, ruleset_default: Option<bool>, launch: Option<bool>) -> (r: Result<
    bool,
    SubmissionFatal,
>)
    ensures
        launch == Some(true) ==> r == Result::<bool, SubmissionFatal>::Ok(true),
        launch == Some(false) && rule.spec_effective_fail_okay(ruleset_default) ==> r
            == Result::<bool, SubmissionFatal>::Ok(false),
        launch == Some(false) && !rule.spec_effective_fail_okay(ruleset_default) ==> r
            == Result::<bool, SubmissionFatal>::Err(SubmissionFatal),
        launch is None ==> r == Result::<bool, SubmissionFatal>::Err(SubmissionFatal),
{
    match launch {
        None => Err(SubmissionFatal),
        Some(true) => Ok(true),
        Some(false) => {
            if rule.effective_fail_okay(ruleset_default) {
                Ok(false)
            } else {
                Err(SubmissionFatal)
            }
        },
    }
}

/// A failing rule is fatal exactly when its effective tolerance is off: with
/// `fail_okay` resolving to `true` the failure is tolerated, never fatal;
/// resolving to `false`, it is always fatal.
pub proof fn lemma_fail_okay_shields_fatal(rule: Rule, ruleset_default: Option<bool>)
    ensures
        rule.fail_okay == Some(true) ==> rule.spec_effective_fail_okay(ruleset_default),
        rule.fail_okay == Some(false) ==> !rule.spec_effective_fail_okay(ruleset_default),
        rule.fail_okay is None && ruleset_default !== Some(true)
            ==> !rule.spec_effective_fail_okay(ruleset_default),
{
}

/// The typed value of one harvested metric.
pub enum MetricValue {
    Bool(bool),
    Int(i64),
    Float(String),
}

/// The mathematical value of a metric: the float case carries the literal's
/// characters, since its numeric reading is left to the consumer.
pub enum MetricValView {
    Bool(bool),
    Int(i64),
    Float(Seq<char>),
}

impl View for MetricValue {
    type V = MetricValView;

    open spec fn view(&self) -> MetricValView {
        match self {
            MetricValue::Bool(b) => MetricValView::Bool(*b),
            MetricValue::Int(n) => MetricValView::Int(*n),
            MetricValue::Float(s) => MetricValView::Float(s@),
        }
    }
}

impl MetricValue {
    /// The rendering used in score tables.
    pub fn render(&self) -> (r: String)
        ensures
            *self is Bool ==> r@ == (if self->Bool_0 { "true"@ } else { "false"@ }),
            *self is Int ==> r@ == crate::strutil::spec_i64_dec(self->Int_0 as int),
            *self is Float ==> r@ == self->Float_0@,
    {
        match self {
            MetricValue::Bool(b) => {
                if *b {
                    String::from_str("true")
                } else {
                    String::from_str("false")
                }
            },
            MetricValue::Int(n) => crate::strutil::i64_to_string(*n),
            MetricValue::Float(s) => s.clone(),
        }
    }
}

/// What a metric output text denotes under a kind name: `bool` and `int`
/// parse as those types do; `float` keeps the literal's text once it is known
/// to be a well-formed float literal; an unknown kind denotes nothing.
pub open spec fn spec_metric_value(kind: Seq<char>, text: Seq<char>) -> Option<MetricValView> {
    if kind == "bool"@ {
        match spec_parse_bool(text) {
            Some(b) => Some(MetricValView::Bool(b)),
            None => None,
        }
    } else if kind == "int"@ {
        match spec_parse_i64(text) {
            Some(n) => Some(MetricValView::Int(n)),
            None => None,
        }
    } else if kind == "float"@ {
        if is_float_literal(text) {
            Some(MetricValView::Float(text))
        } else {
            None
        }
    } else {
        None
    }
}

/// Parses a metric output per its rule's kind. `None` both for text that does
/// not parse and for an unknown kind: the metric is omitted, never defaulted.
pub fn parse_metric(kind: &str, text: &str) -> (r: Option<MetricValue>)
    ensures
        match r {
            Some(v) => spec_metric_value(kind@, text@) == Some(v@),
            None => spec_metric_value(kind@, text@) is None,
        },
{
    if str_eq(kind, "bool") {
        match parse_bool(text) {
            Some(b) => Some(MetricValue::Bool(b)),
            None => None,
        }
    } else if str_eq(kind, "int") {
        match parse_i64(text) {
            Some(n) => Some(MetricValue::Int(n)),
            None => None,
        }
    } else if str_eq(kind, "float") {
        if is_float_text(text) {
            Some(MetricValue::Float(String::from_str(text)))
        } else {
            None
        }
    } else {
        None
    }
}

/// An ordered map from rule target names to harvested metric values: the
/// position of a key is fixed by its first insertion, and a later insertion
/// under the same key overwrites the value.
pub struct MetricMap {
    entries: Vec<(String, MetricValue)>,
}

impl View for MetricMap {
    type V = Seq<(Seq<char>, MetricValView)>;

    closed spec fn view(&self) -> Seq<(Seq<char>, MetricValView)> {
        Seq::new(self.entries@.len(), |i: int| (self.entries@[i].0@, self.entries@[i].1@))
    }
}

/// Key uniqueness: what makes the entry list a map.
pub open spec fn metric_keys_unique(m: Seq<(Seq<char>, MetricValView)>) -> bool {
    forall|i: int, j: int| 0 <= i < j < m.len() ==> (#[trigger] m[i]).0 != (#[trigger] m[j]).0
}

pub open spec fn metric_has_key(m: Seq<(Seq<char>, MetricValView)>, k: Seq<char>) -> bool {
    exists|i: int| 0 <= i < m.len() && (#[trigger] m[i]).0 == k
}

pub open spec fn metric_index_of(m: Seq<(Seq<char>, MetricValView)>, k: Seq<char>) -> int {
    choose|i: int| 0 <= i < m.len() && (#[trigger] m[i]).0 == k
}

/// The value under a key, if any.
pub open spec fn metric_get(m: Seq<(Seq<char>, MetricValView)>, k: Seq<char>) -> Option<
    MetricValView,
> {
    if metric_has_key(m, k) {
        Some(m[metric_index_of(m, k)].1)
    } else {
        None
    }
}

/// Last write wins: a fresh key is appended, a present key keeps its
/// position and takes the new value.
pub open spec fn spec_metric_insert(
    m: Seq<(Seq<char>, MetricValView)>,
    k: Seq<char>,
    v: MetricValView,
) -> Seq<(Seq<char>, MetricValView)> {
    if metric_has_key(m, k) {
        m.update(metric_index_of(m, k), (k, v))
    } else {
        m.push((k, v))
    }
}

impl MetricMap {
    pub open spec fn wf(&self) -> bool {
        metric_keys_unique(self@)
    }

    pub fn new() -> (r: MetricMap)
        ensures
            r@ == Seq::<(Seq<char>, MetricValView)>::empty(),
            r.wf(),
    {
        let r = MetricMap { entries: Vec::new() };
        proof {
            assert(r@ =~= Seq::<(Seq<char>, MetricValView)>::empty());
        }
        r
    }

    pub fn len(&self) -> (r: usize)
        ensures
            r == self@.len(),
    {
        self.entries.len()
    }

    /// The entry at a position, as rendered strings for table rows.
    pub fn entry_at(&self, i: usize) -> (r: (String, String))
        requires
            i < self@.len(),
        ensures
            r.0@ == self@[i as int].0,
            (self@[i as int].1 is Bool ==> r.1@ == (
                if self@[i as int].1->Bool_0 { "true"@ } else { "false"@ }
            )),
            (self@[i as int].1 is Int ==> r.1@ == crate::strutil::spec_i64_dec(
                self@[i as int].1->Int_0 as int,
            )),
            (self@[i as int].1 is Float ==> r.1@ == self@[i as int].1->Float_0),
    {
        let e = &self.entries[i];
        (e.0.clone(), e.1.render())
    }

    /// The entries in their map order, for walking or writing out.
    pub fn entries(&self) -> (r: &Vec<(String, MetricValue)>)
        ensures
            r@.len() == self@.len(),
            forall|i: int|
                0 <= i < self@.len() ==> ((#[trigger] r@[i]).0@, r@[i].1@) == self@[i],
    {
        &self.entries
    }

    pub fn get(&self, key: &str) -> (r: Option<&MetricValue>)
        requires
            self.wf(),
        ensures
            match r {
                Some(v) => metric_get(self@, key@) == Some(v@),
                None => metric_get(self@, key@) is None,
            },
    {
        let mut i: usize = 0;
        while i < self.entries.len()
            invariant
                i <= self.entries.len(),
                self@.len() == self.entries.len(),
                self.wf(),
                forall|j: int| 0 <= j < i ==> (#[trigger] self@[j]).0 != key@,
            decreases self.entries.len() - i,
        {
            if str_eq(self.entries[i].0.as_str(), key) {
                proof {
                    assert(self@[i as int].0 == key@);
                    assert(metric_has_key(self@, key@));
                    let w = metric_index_of(self@, key@);
                    assert(0 <= w < self@.len() && self@[w].0 == key@);
                    if w < i {
                        assert(self@[w].0 != self@[i as int].0);
                    } else if w > i {
                        assert(self@[i as int].0 != self@[w].0);
                    }
                    assert(w == i);
                }
                return Some(&self.entries[i].1);
            }
            i = i + 1;
        }
        proof {
            assert(!metric_has_key(self@, key@));
        }
        None
    }

    pub fn insert(&mut self, key: String, value: MetricValue)
        requires
            old(self).wf(),
        ensures
            final(self).wf(),
            final(self)@ == spec_metric_insert(old(self)@, key@, value@),
    {
        let ghost m0 = self@;
        let mut i: usize = 0;
        while i < self.entries.len()
            invariant
                i <= self.entries.len(),
                m0 == old(self)@,
                self@ == m0,
                self@.len() == self.entries.len(),
                metric_keys_unique(m0),
                forall|j: int| 0 <= j < i ==> (#[trigger] m0[j]).0 != key@,
            decreases self.entries.len() - i,
        {
            if str_eq(self.entries[i].0.as_str(), key.as_str()) {
                self.entries.set(i, (key, value));
                proof {
                    assert(m0[i as int].0 == key@);
                    assert(metric_has_key(m0, key@));
                    let w = metric_index_of(m0, key@);
                    assert(0 <= w < m0.len() && m0[w].0 == key@);
                    if w < i {
                        assert(m0[w].0 != m0[i as int].0);
                    } else if w > i {
                        assert(m0[i as int].0 != m0[w].0);
                    }
                    assert(w == i);
                    assert(self@ =~= spec_metric_insert(m0, key@, value@));
                    assert(metric_keys_unique(self@)) by {
                        assert(forall|a: int|
                            0 <= a < self@.len() && a != i ==> (#[trigger] self@[a]) == m0[a]);
                    }
                }
                return;
            }
            i = i + 1;
        }
        proof {
            assert(!metric_has_key(m0, key@));
        }
        self.entries.push((key, value));
        proof {
            assert(self@ =~= spec_metric_insert(m0, key@, value@));
            assert(metric_keys_unique(self@));
        }
    }
}

/// The running tallies of one ruleset execution. `next` is the index of the
/// rule to run next; once `fatal` holds, no further rule runs.
pub struct RunState {
    pub passed: usize,
    pub failed: usize,
    pub next: usize,
    pub fatal: bool,
    pub scores: MetricMap,
}

/// What the driver reports back about one rule it ran: whether the command
/// launched and succeeded, and the rule's output file text where one was
/// read for metric harvesting.
pub struct RuleEvent {
    pub launch: Option<bool>,
    pub output: Option<String>,
}

/// The counters of a finished (or halted) ruleset run.
pub struct RunSummary {
    pub total: usize,
    pub passed: usize,
    pub failed: usize,
    pub not_reached: usize,
    pub fatal: bool,
}

impl RunState {
    /// Every executed rule was counted exactly once.
    pub open spec fn wf(&self) -> bool {
        &&& self.passed + self.failed == self.next
        &&& self.scores.wf()
    }

    pub fn new() -> (r: RunState)
        ensures
            r.passed == 0 && r.failed == 0 && r.next == 0 && !r.fatal,
            r.scores@ == Seq::<(Seq<char>, MetricValView)>::empty(),
            r.wf(),
    {
        RunState { passed: 0, failed: 0, next: 0, fatal: false, scores: MetricMap::new() }
    }
}

/// What the scores hold after one passing rule, when metrics are harvested:
/// nothing changes unless the rule names a known kind and its output text
/// was read and parses under it.
pub open spec fn spec_log_metric(
    scores: Seq<(Seq<char>, MetricValView)>,
    target: Seq<char>,
    kind: Option<Seq<char>>,
    output: Option<Seq<char>>,
) -> Seq<(Seq<char>, MetricValView)> {
    match (kind, output) {
        (Some(k), Some(text)) => match spec_metric_value(k, text) {
            Some(v) => spec_metric_insert(scores, target, v),
            None => scores,
        },
        _ => scores,
    }
}

pub open spec fn spec_view_opt_string(s: Option<String>) -> Option<Seq<char>> {
    match s {
        Some(x) => Some(x@),
        None => None,
    }
}

impl RunState {
    /// Runs the bookkeeping of one rule: counts its outcome, records its
    /// metric when it passed and `is_metric` asks for harvesting, and raises
    /// `fatal` on an untolerated failure (or a command that would not launch).
    pub fn step(&mut self, rule: &Rule, ruleset_default: Option<bool>, event: &RuleEvent,
        is_metric: bool)
        requires
            old(self).wf(),
            old(self).next < usize::MAX,
            !old(self).fatal,
        ensures
            final(self).wf(),
            final(self).next == old(self).next + 1,
            event.launch == Some(true) ==> {
                &&& final(self).passed == old(self).passed + 1
                &&& final(self).failed == old(self).failed
                &&& !final(self).fatal
                &&& final(self).scores@ == (if is_metric {
                    spec_log_metric(
                        old(self).scores@,
                        rule.target@,
                        spec_view_opt_string(rule.kind),
                        spec_view_opt_string(event.output),
                    )
                } else {
                    old(self).scores@
                })
            },
            event.launch != Some(true) ==> {
                &&& final(self).passed == old(self).passed
                &&& final(self).failed == old(self).failed + 1
                &&& final(self).scores@ == old(self).scores@
                &&& final(self).fatal == (event.launch is None || !rule.spec_effective_fail_okay(
                    ruleset_default,
                ))
            },
    {
        self.next = self.next + 1;
        match event.launch {
            Some(true) => {
                self.passed = self.passed + 1;
                if is_metric {
                    match (&rule.kind, &event.output) {
                        (Some(kind), Some(text)) => {
                            match parse_metric(kind.as_str(), text.as_str()) {
                                Some(v) => {
                                    self.scores.insert(clone_string(&rule.target), v);
                                },
                                None => (),
                            }
                        },
                        _ => (),
                    }
                }
            },
            Some(false) => {
                self.failed = self.failed + 1;
                if !rule.effective_fail_okay(ruleset_default) {
                    self.fatal = true;
                }
            },
            None => {
                self.failed = self.failed + 1;
                self.fatal = true;
            },
        }
    }

    /// The closing summary of a run over `total` rules: what was not reached
    /// is whatever the counters leave over, and rules go unreached only
    /// behind a fatal failure.
    pub fn summary(&self, total: usize) -> (r: RunSummary)
        requires
            self.wf(),
            self.next <= total,
            self.fatal || self.next == total,
        ensures
            r.total == total,
            r.passed == self.passed,
            r.failed == self.failed,
            r.fatal == self.fatal,
            r.passed + r.failed + r.not_reached == r.total,
            r.not_reached > 0 ==> r.fatal,
    {
        RunSummary {
            total,
            passed: self.passed,
            failed: self.failed,
            not_reached: total - self.passed - self.failed,
            fatal: self.fatal,
        }
    }
}

/// Counting never loses a rule: however a run ends, the passed, failed and
/// unreached counts partition the ruleset, and rules are left unreached only
/// when a fatal failure halted the run.
pub proof fn lemma_counts_partition(state: RunState, total: nat)
    requires
        state.wf(),
        state.next <= total,
        state.fatal || state.next == total,
    ensures
        state.passed + state.failed + (total - state.next) == total,
        total - state.next > 0 ==> state.fatal,
{
}

fn clone_string(s: &String) -> (r: String)
    ensures
        r@ == s@,
{
    String::from_str(s.as_str())
}

/// The abstract value of a run in progress.
#[verifier::ext_equal]
pub struct RunView {
    pub passed: int,
    pub failed: int,
    pub next: int,
    pub fatal: bool,
    pub scores: Seq<(Seq<char>, MetricValView)>,
}

impl View for RunState {
    type V = RunView;

    open spec fn view(&self) -> RunView {
        RunView {
            passed: self.passed as int,
            failed: self.failed as int,
            next: self.next as int,
            fatal: self.fatal,
            scores: self.scores@,
        }
    }
}

/// What one step does to a run's abstract value: a pass counts and (when
/// harvesting) logs its metric; anything else counts as failed, fatally so
/// when the command never ran or its failure is not tolerated.
pub open spec fn spec_step(
    s: RunView,
    rule: Rule,
    ruleset_default: Option<bool>,
    event: RuleEvent,
    is_metric: bool,
) -> RunView {
    if event.launch == Some(true) {
        RunView {
            passed: s.passed + 1,
            failed: s.failed,
            next: s.next + 1,
            fatal: s.fatal,
            scores: if is_metric {
                spec_log_metric(
                    s.scores,
                    rule.target@,
                    spec_view_opt_string(rule.kind),
                    spec_view_opt_string(event.output),
                )
            } else {
                s.scores
            },
        }
    } else {
        RunView {
            passed: s.passed,
            failed: s.failed + 1,
            next: s.next + 1,
            fatal: event.launch is None || !rule.spec_effective_fail_okay(ruleset_default),
            scores: s.scores,
        }
    }
}

pub open spec fn spec_run_start() -> RunView {
    RunView { passed: 0, failed: 0, next: 0, fatal: false, scores: Seq::empty() }
}

/// A whole run as a fold over the events, one rule per event in declaration
/// order; once a step turns fatal the remaining events change nothing.
pub open spec fn spec_run(
    rules: Seq<Rule>,
    ruleset_default: Option<bool>,
    events: Seq<RuleEvent>,
    is_metric: bool,
) -> RunView
    decreases events.len(),
{
    if events.len() == 0 {
        spec_run_start()
    } else {
        let prev = spec_run(rules, ruleset_default, events.drop_last(), is_metric);
        if prev.fatal {
            prev
        } else {
            spec_step(prev, rules[events.len() - 1], ruleset_default, events.last(), is_metric)
        }
    }
}

/// A fatal prefix decides the whole run: events after it change nothing.
proof fn lemma_run_fatal_stops(
    rules: Seq<Rule>,
    ruleset_default: Option<bool>,
    events: Seq<RuleEvent>,
    is_metric: bool,
    i: int,
)
    requires
        0 <= i <= events.len(),
        spec_run(rules, ruleset_default, events.take(i), is_metric).fatal,
    ensures
        spec_run(rules, ruleset_default, events, is_metric) == spec_run(
            rules,
            ruleset_default,
            events.take(i),
            is_metric,
        ),
    decreases events.len() - i,
{
    if i == events.len() {
        assert(events.take(i) =~= events);
    } else {
        assert(events.take(i + 1).drop_last() =~= events.take(i));
        assert(spec_run(rules, ruleset_default, events.take(i + 1), is_metric) == spec_run(
            rules,
            ruleset_default,
            events.take(i),
            is_metric,
        ));
        lemma_run_fatal_stops(rules, ruleset_default, events, is_metric, i + 1);
    }
}

/// However a run ends, every executed event was counted exactly once: the
/// passed and failed tallies sum to the number of events the fold consumed,
/// the fold never consumes more events than it was handed, and a run that
/// never turned fatal consumed them all — so the unreached remainder of a
/// ruleset is nonempty only behind a fatal outcome or a driver that stopped
/// handing events.
pub proof fn lemma_run_counts(
    rules: Seq<Rule>,
    ruleset_default: Option<bool>,
    events: Seq<RuleEvent>,
    is_metric: bool,
)
    ensures
        ({
            let v = spec_run(rules, ruleset_default, events, is_metric);
            &&& v.passed + v.failed == v.next
            &&& 0 <= v.next <= events.len()
            &&& (!v.fatal ==> v.next == events.len())
        }),
    decreases events.len(),
{
    if events.len() == 0 {
    } else {
        lemma_run_counts(rules, ruleset_default, events.drop_last(), is_metric);
    }
}

/// Runs a whole ruleset against the events its driver observed, rule by rule
/// in declaration order, stopping at a fatal outcome. The result is exactly
/// the fold `spec_run` of the events, and the error is raised exactly when
/// that fold turned fatal.
pub fn run_ruleset(ruleset: &Ruleset, events: &Vec<RuleEvent>, is_metric: bool) -> (r: (
    RunState,
    Result<(), SubmissionFatal>,
))
    requires
        events@.len() <= ruleset.rules@.len(),
    ensures
        r.0@ == spec_run(ruleset.rules@, ruleset.fail_okay, events@, is_metric),
        r.0.wf(),
        r.0.next <= events@.len(),
        r.1 is Err <==> r.0.fatal,
        !r.0.fatal ==> r.0.next == events@.len(),
{
    let mut state = RunState::new();
    let total = ruleset.rules.len();
    proof {
        assert(state@ =~= spec_run(ruleset.rules@, ruleset.fail_okay, events@.take(0), is_metric));
    }
    let mut i: usize = 0;
    while i < events.len() && !state.fatal
        invariant
            i <= events@.len() <= total == ruleset.rules@.len(),
            state.wf(),
            state.next == i,
            state@ == spec_run(ruleset.rules@, ruleset.fail_okay, events@.take(i as int), is_metric),
        decreases events@.len() - i,
    {
        let ghost before = state@;
        state.step(&ruleset.rules[i], ruleset.fail_okay, &events[i], is_metric);
        proof {
            assert(events@.take(i + 1 as int).drop_last() =~= events@.take(i as int));
            assert(events@.take(i + 1 as int).last() == events@[i as int]);
            assert(state@ =~= spec_step(
                before,
                ruleset.rules@[i as int],
                ruleset.fail_okay,
                events@[i as int],
                is_metric,
            ));
        }
        i = i + 1;
    }
    proof {
        if state.fatal {
            lemma_run_fatal_stops(ruleset.rules@, ruleset.fail_okay, events@, is_metric, i as int);
        } else {
            assert(events@.take(i as int) =~= events@);
        }
    }
    let fatal = state.fatal;
    (state, if fatal { Err(SubmissionFatal) } else { Ok(()) })
}

/// Whether a submit-gated ruleset runs: it must exist, and its `on_submit`
/// flag must not be explicitly `false`.
pub fn on_submit_applies(ruleset: &Option<Ruleset>) -> (r: bool)
    ensures
        r == match ruleset {
            Some(rs) => rs.on_submit != Some(false),
            None => false,
        },
{
    match ruleset {
        Some(rs) => match rs.on_submit {
            Some(b) => b,
            None => true,
        },
        None => false,
    }
}

/// Whether a grade-gated ruleset runs: it must exist, and its `on_grade`
/// flag must not be explicitly `false`.
pub fn on_grade_applies(ruleset: &Option<Ruleset>) -> (r: bool)
    ensures
        r == match ruleset {
            Some(rs) => rs.on_grade != Some(false),
            None => false,
        },
{
    match ruleset {
        Some(rs) => match rs.on_grade {
            Some(b) => b,
            None => true,
        },
        None => false,
    }
}

/// Whether a pipeline stage's result halts the stages after it: only a fatal
/// ruleset outcome does; an absent stage or a clean run lets the pipeline go
/// on.
pub fn stage_halts(result: &Option<Result<(), SubmissionFatal>>) -> (r: bool)
    ensures
        r == (match result {
            Some(Err(SubmissionFatal)) => true,
            _ => false,
        }),
{
    match result {
        Some(Err(SubmissionFatal)) => true,
        _ => false,
    }
}

} // verus!

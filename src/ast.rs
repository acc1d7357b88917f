//! The tree of a feature and its evaluation.

use vstd::prelude::*;

verus! {

/// A test context is used to pass state between different steps of a test case.
pub trait TestContext: Sized {
    /// The fresh context that `new` builds.
    spec fn spec_new() -> Self;

    fn new() -> (r: Self)
        ensures
            r == Self::spec_new(),
    ;
}

/// A specific step which makes up a scenario. Users create their own
/// implementations of this trait, which are returned by their step parsers.
pub trait Step<C: TestContext>: Sized {
    /// Whether the step passes on `context`, and the context it leaves behind.
    spec fn spec_eval(&self, context: C) -> (bool, C);

    fn eval(&self, context: &mut C) -> (r: bool)
        ensures
            (r, *final(context)) == self.spec_eval(*old(context)),
    ;
}

/// A named sequence of steps: the body of a Scenario or of a Background.
pub struct Scenario<S> {
    pub name: Option<String>,
    pub steps: Vec<S>,
}

pub enum TestCase<S> {
    Background(Scenario<S>),
    Scenario(Scenario<S>),
}

pub struct TestResult<C: TestContext> {
    pub test_case_name: String,
    pub pass: bool,
    pub context: C,
}

/// A feature is a collection of test cases.
pub struct Feature<S> {
    pub name: String,
    pub comment: String,
    pub background: Option<TestCase<S>>,
    pub test_cases: Vec<TestCase<S>>,
}

/// What a `Scenario` holds, as mathematical values.
pub struct ScenarioModel<S> {
    pub name: Option<Seq<char>>,
    pub steps: Seq<S>,
}

pub enum TestCaseModel<S> {
    Background(ScenarioModel<S>),
    Scenario(ScenarioModel<S>),
}

pub struct FeatureModel<S> {
    pub name: Seq<char>,
    pub comment: Seq<char>,
    pub background: Option<TestCaseModel<S>>,
    pub test_cases: Seq<TestCaseModel<S>>,
}

/// What a `TestResult` holds, as mathematical values.
pub struct Outcome<C> {
    pub name: Seq<char>,
    pub pass: bool,
    pub context: C,
}

impl<S> View for Scenario<S> {
    type V = ScenarioModel<S>;

    open spec fn view(&self) -> ScenarioModel<S> {
        ScenarioModel {
            name: match self.name {
                Some(n) => Some(n@),
                None => None,
            },
            steps: self.steps@,
        }
    }
}

impl<S> View for TestCase<S> {
    type V = TestCaseModel<S>;

    open spec fn view(&self) -> TestCaseModel<S> {
        match self {
            TestCase::Background(s) => TestCaseModel::Background(s@),
            TestCase::Scenario(s) => TestCaseModel::Scenario(s@),
        }
    }
}

impl<S> View for Feature<S> {
    type V = FeatureModel<S>;

    open spec fn view(&self) -> FeatureModel<S> {
        FeatureModel {
            name: self.name@,
            comment: self.comment@,
            background: match self.background {
                Some(b) => Some(b@),
                None => None,
            },
            test_cases: self.test_cases@.map_values(|t: TestCase<S>| t@),
        }
    }
}

impl<S> TestCaseModel<S> {
    /// The scenario that the case wraps, whichever its kind.
    pub open spec fn scenario(self) -> ScenarioModel<S> {
        match self {
            TestCaseModel::Background(s) => s,
            TestCaseModel::Scenario(s) => s,
        }
    }
}

impl<S> FeatureModel<S> {
    /// The steps that run ahead of every scenario, if the feature has a Background.
    pub open spec fn background_scenario(self) -> Option<ScenarioModel<S>> {
        match self.background {
            Some(TestCaseModel::Background(b)) => Some(b),
            _ => None,
        }
    }
}

impl<C: TestContext> TestResult<C> {
    pub open spec fn model(self) -> Outcome<C> {
        Outcome { name: self.test_case_name@, pass: self.pass, context: self.context }
    }
}

/// Runs `steps` in order from `context`, stopping at the first step that fails;
/// gives whether every step passed and the context as the last step run left it.
pub open spec fn run_steps<C: TestContext, S: Step<C>>(steps: Seq<S>, context: C) -> (bool, C)
    decreases steps.len(),
{
    if steps.len() == 0 {
        (true, context)
    } else {
        let (ok, next) = steps[0].spec_eval(context);
        if ok {
            run_steps(steps.drop_first(), next)
        } else {
            (false, next)
        }
    }
}

/// The name a result reports for a case: its name, or the empty text.
pub open spec fn case_name(name: Option<Seq<char>>) -> Seq<char> {
    match name {
        Some(n) => n,
        None => Seq::empty(),
    }
}

/// The name reported for a scenario whose Background failed.
pub open spec fn background_marker() -> Seq<char> {
    seq!['<', 'B', 'a', 'c', 'k', 'g', 'r', 'o', 'u', 'n', 'd', '>']
}

/// The result of running a scenario's steps from `context`.
pub open spec fn scenario_outcome<C: TestContext, S: Step<C>>(
    sc: ScenarioModel<S>,
    context: C,
) -> Outcome<C> {
    let (pass, end) = run_steps(sc.steps, context);
    Outcome { name: case_name(sc.name), pass, context: end }
}

/// The result of one scenario of a feature: a fresh context, the Background
/// (if any) run on it, then the scenario's own steps if the Background passed.
pub open spec fn case_outcome<C: TestContext, S: Step<C>>(
    background: Option<ScenarioModel<S>>,
    case: ScenarioModel<S>,
) -> Outcome<C> {
    match background {
        None => scenario_outcome(case, C::spec_new()),
        Some(bg) => {
            let (ok, ctx) = run_steps(bg.steps, C::spec_new());
            if ok {
                scenario_outcome(case, ctx)
            } else {
                Outcome { name: background_marker(), pass: false, context: ctx }
            }
        },
    }
}

/// The results of a feature's evaluation, one per test case, in order.
pub open spec fn feature_outcomes<C: TestContext, S: Step<C>>(f: FeatureModel<S>) -> Seq<Outcome<C>> {
    Seq::new(
        f.test_cases.len(),
        |i: int| case_outcome::<C, S>(f.background_scenario(), f.test_cases[i].scenario()),
    )
}

/// The outcomes that a sequence of results holds.
pub open spec fn outcomes_of<C: TestContext>(results: Seq<TestResult<C>>) -> Seq<Outcome<C>> {
    results.map_values(|r: TestResult<C>| r.model())
}

impl<S> Scenario<S> {
    /// Execute a scenario by running each step in order, with mutable access to
    /// the context.
    pub fn eval<C: TestContext>(&self, context: C) -> (r: TestResult<C>) where S: Step<C>
        ensures
            r.model() == scenario_outcome(self@, context),
    {
        let mut ctx = context;
        let name = match &self.name {
            Some(s) => s.clone(),
            None => String::new(),
        };
        let mut i: usize = 0;
        assert(self.steps@.subrange(0, self.steps@.len() as int) =~= self.steps@);
        while i < self.steps.len()
            invariant
                i <= self.steps.len(),
                name@ == case_name(self@.name),
                run_steps(self.steps@.subrange(i as int, self.steps@.len() as int), ctx)
                    == run_steps(self.steps@, context),
            decreases self.steps.len() - i,
        {
            let ghost rest = self.steps@.subrange(i as int, self.steps@.len() as int);
            let ghost before = ctx;
            assert(rest.drop_first() =~= self.steps@.subrange(i + 1, self.steps@.len() as int));
            assert(rest[0] == self.steps@[i as int]);
            if !self.steps[i].eval(&mut ctx) {
                assert(run_steps(rest, before) == (false, ctx));
                return TestResult { test_case_name: name, pass: false, context: ctx };
            }
            i += 1;
        }
        assert(self.steps@.subrange(i as int, self.steps@.len() as int) =~= Seq::<S>::empty());
        TestResult { test_case_name: name, pass: true, context: ctx }
    }
}

impl<S> TestCase<S> {
    pub fn name(&self) -> (r: Option<String>)
        ensures
            r matches Some(n) ==> self@.scenario().name == Some(n@),
            r is None ==> self@.scenario().name is None,
    {
        let s = match self {
            TestCase::Background(s) => s,
            TestCase::Scenario(s) => s,
        };
        match &s.name {
            Some(n) => Some(n.clone()),
            None => None,
        }
    }

    pub fn eval<C: TestContext>(&self, context: C) -> (r: TestResult<C>) where S: Step<C>
        ensures
            r.model() == scenario_outcome(self@.scenario(), context),
    {
        match self {
            TestCase::Background(s) => s.eval(context),
            TestCase::Scenario(s) => s.eval(context),
        }
    }
}

impl<S> Feature<S> {
    /// Evaluates every test case on a fresh context, with the Background run
    /// ahead of each one, and gives one result per test case, in order.
    pub fn eval<C: TestContext>(&self) -> (r: Vec<TestResult<C>>) where S: Step<C>
        ensures
            outcomes_of(r@) == feature_outcomes::<C, S>(self@),
    {
        let mut results: Vec<TestResult<C>> = Vec::new();
        let mut k: usize = 0;
        while k < self.test_cases.len()
            invariant
                k <= self.test_cases.len(),
                results.len() == k,
                forall|i: int|
                    0 <= i < k ==> #[trigger] results@[i].model() == feature_outcomes::<C, S>(
                        self@,
                    )[i],
            decreases self.test_cases.len() - k,
        {
            let mut context = C::new();
            if let Some(TestCase::Background(bg)) = &self.background {
                let r = bg.eval(context);
                if !r.pass {
                    let marker = String::from_str("<Background>");
                    proof {
                        reveal_strlit("<Background>");
                    }
                    assert(marker@ =~= background_marker());
                    results.push(TestResult { test_case_name: marker, pass: false, context: r.context });
                    k += 1;
                    continue;
                }
                context = r.context;
            }
            results.push(self.test_cases[k].eval(context));
            k += 1;
        }
        assert(outcomes_of(results@) =~= feature_outcomes::<C, S>(self@));
        results
    }
}

/// When the Background fails on a scenario's fresh context, the scenario's
/// result is named `<Background>`, fails, and holds the context exactly as the
/// Background left it: none of the scenario's own steps ran.
pub proof fn lemma_background_failure<C: TestContext, S: Step<C>>(
    background: ScenarioModel<S>,
    case: ScenarioModel<S>,
)
    requires
        !run_steps(background.steps, C::spec_new()).0,
    ensures
        case_outcome::<C, S>(Some(background), case) == (Outcome {
            name: background_marker(),
            pass: false,
            context: run_steps(background.steps, C::spec_new()).1,
        }),
{
}

/// A scenario without steps, in a feature without a Background, passes and
/// leaves its fresh context untouched.
pub proof fn lemma_empty_scenario_passes<C: TestContext, S: Step<C>>(case: ScenarioModel<S>)
    requires
        case.steps.len() == 0,
    ensures
        case_outcome::<C, S>(None, case).pass,
        case_outcome::<C, S>(None, case).context == C::spec_new(),
{
}

/// Evaluating one feature twice gives the same results, in the same order.
pub proof fn lemma_eval_deterministic<C: TestContext, S: Step<C>>(
    f: FeatureModel<S>,
    first: Seq<TestResult<C>>,
    second: Seq<TestResult<C>>,
)
    requires
        outcomes_of(first) == feature_outcomes::<C, S>(f),
        outcomes_of(second) == feature_outcomes::<C, S>(f),
    ensures
        outcomes_of(first) == outcomes_of(second),
        first.len() == second.len(),
{
    assert(first.len() == outcomes_of(first).len());
    assert(second.len() == outcomes_of(second).len());
}

} // verus!

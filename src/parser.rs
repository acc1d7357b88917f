//! The grammar of a feature text, built around caller-supplied step parsers.
//!
//! ```text
//! [blank-line*]
//! "Feature: " <name-to-eol>
//! <comment-line>*
//! blank-line+
//! ["Background:" (<name-to-eol> | newline) [Given-block] [When-block] [Then-block] blank-line+]
//! "Scenario:" (<name-to-eol> | newline) [Given-block] [When-block] [Then-block]
//! (blank-line+ "Scenario:" ...)*
//!
//! Given-block := "Given " <step-text-to-eol> ("And " <step-text-to-eol>)*
//! ```
//!
//! An optional part is attempted when the text at its place begins with the
//! first letter of its keyword; once attempted it must match in full, else
//! the whole text is refused. What follows the last scenario is left unread.

use vstd::prelude::*;
use crate::ast::{
    feature_outcomes, Feature, FeatureModel, Scenario, ScenarioModel, Step, TestCase, TestCaseModel,
    TestContext,
};
use crate::parse_utils::{
    blank_lines, char_at, line_block, line_len, line_length, newline_count, newline_run,
    spec_blank_lines, spec_eol, spec_line_block, spec_until_eol, until_eol, eol,
};

verus! {

/// Turns the text of one step (what follows `Given `, `When `, `Then ` or
/// `And ` up to the end of its line) into a step. Hosts implement it once for
/// each keyword.
pub trait StepParser<S> {
    /// The step that `text` stands for, if the parser accepts it.
    spec fn spec_parse(&self, text: Seq<char>) -> Option<S>;

    fn parse(&self, text: &str) -> (r: Option<S>)
        ensures
            r == self.spec_parse(text@),
    ;
}

/// A failed parse, at a position of the text counted in characters.
#[derive(Debug, Clone, Copy, PartialEq, Eq)]
pub struct ParseError {
    pub position: usize,
}

/// The text with its leading and trailing whitespace removed.
pub uninterp spec fn trimmed(s: Seq<char>) -> Seq<char>;

pub open spec fn given_kw() -> Seq<char> {
    seq!['G', 'i', 'v', 'e', 'n', ' ']
}

pub open spec fn when_kw() -> Seq<char> {
    seq!['W', 'h', 'e', 'n', ' ']
}

pub open spec fn then_kw() -> Seq<char> {
    seq!['T', 'h', 'e', 'n', ' ']
}

pub open spec fn and_kw() -> Seq<char> {
    seq!['A', 'n', 'd', ' ']
}

pub open spec fn scenario_kw() -> Seq<char> {
    seq!['S', 'c', 'e', 'n', 'a', 'r', 'i', 'o', ':']
}

pub open spec fn background_kw() -> Seq<char> {
    seq!['B', 'a', 'c', 'k', 'g', 'r', 'o', 'u', 'n', 'd', ':']
}

pub open spec fn feature_kw() -> Seq<char> {
    seq!['F', 'e', 'a', 't', 'u', 'r', 'e', ':', ' ']
}

/// Whether the text at `p` begins with `lit`.
pub open spec fn has_lit(s: Seq<char>, p: int, lit: Seq<char>) -> bool {
    0 <= p && p + lit.len() <= s.len() && s.subrange(p, p + lit.len()) == lit
}

/// One keyword line: `kw`, then the step's text up to the end of the line,
/// which `prod` turns into a step, then the line end.
pub open spec fn spec_step_line<S, P: StepParser<S>>(
    prod: P,
    s: Seq<char>,
    p: int,
    kw: Seq<char>,
) -> Result<(S, nat), int> {
    if has_lit(s, p, kw) {
        let t = p + kw.len();
        let k = line_len(s, t);
        match prod.spec_parse(s.subrange(t, t + k)) {
            Some(step) => match spec_eol(s, t + k) {
                Ok(e) => Ok((step, kw.len() + k + e)),
                Err(x) => Err(x),
            },
            None => Err(t),
        }
    } else {
        Err(p)
    }
}

/// The `And ` lines that continue a block, as many as begin with `A`.
pub open spec fn spec_and_lines<S, P: StepParser<S>>(prod: P, s: Seq<char>, p: int) -> Result<
    (Seq<S>, nat),
    int,
>
    decreases s.len() - p,
{
    if char_at(s, p, 'A') {
        match spec_step_line(prod, s, p, and_kw()) {
            Ok((step, n)) => match spec_and_lines(prod, s, p + n) {
                Ok((rest, m)) => Ok((seq![step] + rest, n + m)),
                Err(x) => Err(x),
            },
            Err(x) => Err(x),
        }
    } else {
        Ok((Seq::empty(), 0))
    }
}

/// The optional block of one keyword: a keyword line and its `And ` lines.
/// It is absent, with no steps, where the text at `p` does not begin with
/// the keyword's first letter.
#[verifier::opaque]
pub open spec fn spec_block<S, P: StepParser<S>>(
    prod: P,
    s: Seq<char>,
    p: int,
    kw: Seq<char>,
) -> Result<(Seq<S>, nat), int> {
    if kw.len() > 0 && char_at(s, p, kw[0]) {
        match spec_step_line(prod, s, p, kw) {
            Ok((first, n)) => match spec_and_lines(prod, s, p + n) {
                Ok((rest, m)) => Ok((seq![first] + rest, n + m)),
                Err(x) => Err(x),
            },
            Err(x) => Err(x),
        }
    } else {
        Ok((Seq::empty(), 0))
    }
}

/// A header line: `kw` (ending in `:`), then either a name up to the end of
/// the line, trimmed, or a newline right away for no name.
#[verifier::opaque]
pub open spec fn spec_header(s: Seq<char>, p: int, kw: Seq<char>) -> Result<
    (Option<Seq<char>>, nat),
    int,
> {
    if has_lit(s, p, kw) {
        let t = p + kw.len();
        match spec_until_eol(s, t) {
            Ok((k, n)) => Ok((Some(trimmed(s.subrange(t, t + k))), kw.len() + n)),
            Err(_) => if char_at(s, t, '\n') {
                Ok((None, kw.len() + 1))
            } else {
                Err(t)
            },
        }
    } else {
        Err(p)
    }
}

/// A Scenario or a Background: its header, then the Given, When and Then
/// blocks, whose steps it holds in that order.
#[verifier::opaque]
pub open spec fn spec_scenario<S, G: StepParser<S>, W: StepParser<S>, T: StepParser<S>>(
    given: G,
    when: W,
    then: T,
    s: Seq<char>,
    p: int,
    kw: Seq<char>,
) -> Result<(ScenarioModel<S>, nat), int> {
    match spec_header(s, p, kw) {
        Err(x) => Err(x),
        Ok((name, n0)) => match spec_block(given, s, p + n0, given_kw()) {
            Err(x) => Err(x),
            Ok((gs, n1)) => match spec_block(when, s, p + n0 + n1, when_kw()) {
                Err(x) => Err(x),
                Ok((ws, n2)) => match spec_block(then, s, p + n0 + n1 + n2, then_kw()) {
                    Err(x) => Err(x),
                    Ok((ts, n3)) => Ok(
                        (ScenarioModel { name, steps: gs + ws + ts }, n0 + n1 + n2 + n3),
                    ),
                },
            },
        },
    }
}

/// The optional Background with the blank lines after it; attempted where
/// the text at `p` begins with `B`.
#[verifier::opaque]
pub open spec fn spec_background<S, G: StepParser<S>, W: StepParser<S>, T: StepParser<S>>(
    given: G,
    when: W,
    then: T,
    s: Seq<char>,
    p: int,
) -> Result<(Option<TestCaseModel<S>>, nat), int> {
    if char_at(s, p, 'B') {
        match spec_scenario(given, when, then, s, p, background_kw()) {
            Err(x) => Err(x),
            Ok((bg, n)) => match spec_blank_lines(s, p + n) {
                Err(x) => Err(x),
                Ok(b) => Ok((Some(TestCaseModel::Background(bg)), n + b)),
            },
        }
    } else {
        Ok((None, 0))
    }
}

/// One or more Scenarios, separated by runs of blank lines.
pub open spec fn spec_scenarios<S, G: StepParser<S>, W: StepParser<S>, T: StepParser<S>>(
    given: G,
    when: W,
    then: T,
    s: Seq<char>,
    p: int,
) -> Result<(Seq<TestCaseModel<S>>, nat), int>
    decreases s.len() - p, 0int,
{
    match spec_scenario(given, when, then, s, p, scenario_kw()) {
        Err(x) => Err(x),
        Ok((sc, n)) => if char_at(s, p + n, '\n') {
            match spec_after_separator(given, when, then, s, p + n + 1) {
                Ok((rest, m)) => Ok((seq![TestCaseModel::Scenario(sc)] + rest, n + 1 + m)),
                Err(x) => Err(x),
            }
        } else {
            Ok((seq![TestCaseModel::Scenario(sc)], n))
        },
    }
}

/// What follows the first newline of a separator: the rest of the run of
/// newlines, then one or more Scenarios.
pub open spec fn spec_after_separator<S, G: StepParser<S>, W: StepParser<S>, T: StepParser<S>>(
    given: G,
    when: W,
    then: T,
    s: Seq<char>,
    p: int,
) -> Result<(Seq<TestCaseModel<S>>, nat), int>
    decreases s.len() - p, 1int,
{
    if char_at(s, p, '\n') {
        match spec_after_separator(given, when, then, s, p + 1) {
            Ok((cases, m)) => Ok((cases, m + 1)),
            Err(x) => Err(x),
        }
    } else {
        spec_scenarios(given, when, then, s, p)
    }
}

/// A whole feature text: the feature, and how many characters it takes up.
pub open spec fn spec_feature<S, G: StepParser<S>, W: StepParser<S>, T: StepParser<S>>(
    given: G,
    when: W,
    then: T,
    s: Seq<char>,
) -> Result<(FeatureModel<S>, nat), int> {
    let p0 = newline_count(s, 0) as int;
    if has_lit(s, p0, feature_kw()) {
        let p1 = p0 + feature_kw().len();
        match spec_until_eol(s, p1) {
            Err(x) => Err(x),
            Ok((k, n)) => {
                let p2 = p1 + n;
                let (ck, cn) = spec_line_block(s, p2);
                let p3 = p2 + cn;
                match spec_blank_lines(s, p3) {
                    Err(x) => Err(x),
                    Ok(b) => {
                        let p4 = p3 + b;
                        match spec_background(given, when, then, s, p4) {
                            Err(x) => Err(x),
                            Ok((background, nb)) => match spec_scenarios(
                                given,
                                when,
                                then,
                                s,
                                p4 + nb,
                            ) {
                                Err(x) => Err(x),
                                Ok((cases, nc)) => Ok(
                                    (
                                        FeatureModel {
                                            name: s.subrange(p1, p1 + k),
                                            comment: s.subrange(p2, p2 + ck),
                                            background,
                                            test_cases: cases,
                                        },
                                        (p4 + nb + nc) as nat,
                                    ),
                                ),
                            },
                        }
                    },
                }
            },
        }
    } else {
        Err(p0)
    }
}

/// A run of newlines after the first newline of a separator is skipped, and
/// counted in what is consumed.
proof fn lemma_after_separator<S, G: StepParser<S>, W: StepParser<S>, T: StepParser<S>>(
    given: G,
    when: W,
    then: T,
    s: Seq<char>,
    p: int,
)
    requires
        0 <= p <= s.len(),
    ensures
        spec_after_separator(given, when, then, s, p) == (match spec_scenarios(
            given,
            when,
            then,
            s,
            p + newline_count(s, p),
        ) {
            Ok((cases, m)) => Ok((cases, m + newline_count(s, p))),
            Err(x) => Err(x),
        }),
    decreases s.len() - p,
{
    if char_at(s, p, '\n') {
        lemma_after_separator(given, when, then, s, p + 1);
        assert(newline_count(s, p) == 1 + newline_count(s, p + 1));
        match spec_scenarios(given, when, then, s, p + newline_count(s, p)) {
            Ok((cases, m)) => {
                assert(m + newline_count(s, p) == (m + newline_count(s, p + 1)) + 1);
            },
            Err(x) => {},
        }
    } else {
        assert(newline_count(s, p) == 0);
        match spec_scenarios(given, when, then, s, p) {
            Ok((cases, m)) => {
                assert(m + newline_count(s, p) == m);
            },
            Err(x) => {},
        }
    }
}

/// Every case that a run of Scenarios yields is a Scenario, and there is one
/// at least.
proof fn lemma_scenarios_are_scenarios<S, G: StepParser<S>, W: StepParser<S>, T: StepParser<S>>(
    given: G,
    when: W,
    then: T,
    s: Seq<char>,
    p: int,
)
    ensures
        spec_scenarios(given, when, then, s, p) matches Ok((cases, _)) ==> cases.len() >= 1 && (
        forall|i: int| 0 <= i < cases.len() ==> #[trigger] cases[i] is Scenario),
        spec_after_separator(given, when, then, s, p) matches Ok((cases, _)) ==> cases.len() >= 1
            && (forall|i: int| 0 <= i < cases.len() ==> #[trigger] cases[i] is Scenario),
    decreases s.len() - p,
{
    if let Ok((sc, n)) = spec_scenario(given, when, then, s, p, scenario_kw()) {
        if char_at(s, p + n, '\n') {
            lemma_scenarios_are_scenarios(given, when, then, s, p + n + 1);
            if let Ok((rest, m)) = spec_after_separator(given, when, then, s, p + n + 1) {
                let cases = seq![TestCaseModel::Scenario(sc)] + rest;
                assert forall|i: int| 0 <= i < cases.len() implies #[trigger] cases[i] is Scenario by {
                    if i > 0 {
                        assert(cases[i] == rest[i - 1]);
                    }
                }
            }
        }
    }
    if char_at(s, p, '\n') {
        lemma_scenarios_are_scenarios(given, when, then, s, p + 1);
    }
}

/// For a text that parses, evaluation gives exactly one result per Scenario
/// of the text, whether or not it has a Background and whatever that
/// Background does; all its test cases are Scenarios, one at least.
pub proof fn lemma_one_result_per_scenario<
    C: TestContext,
    S: Step<C>,
    G: StepParser<S>,
    W: StepParser<S>,
    T: StepParser<S>,
>(given: G, when: W, then: T, text: Seq<char>)
    requires
        spec_feature(given, when, then, text) is Ok,
    ensures
        ({
            let f = spec_feature(given, when, then, text)->Ok_0.0;
            &&& feature_outcomes::<C, S>(f).len() == f.test_cases.len()
            &&& f.test_cases.len() >= 1
            &&& forall|i: int| 0 <= i < f.test_cases.len() ==> #[trigger] f.test_cases[i] is Scenario
        }),
{
    let p0 = newline_count(text, 0) as int;
    let p1 = p0 + feature_kw().len();
    let (k, n) = spec_until_eol(text, p1)->Ok_0;
    let p2 = p1 + n;
    let (ck, cn) = spec_line_block(text, p2);
    let p3 = p2 + cn;
    let b = spec_blank_lines(text, p3)->Ok_0;
    let p4 = p3 + b;
    let nb = spec_background(given, when, then, text, p4)->Ok_0.1;
    lemma_scenarios_are_scenarios(given, when, then, text, p4 + nb);
}

/// A keyword line followed by two `And ` lines, and no further `And ` line,
/// makes a block of exactly three steps, in the order of the lines, each
/// turned into a step by the keyword's own parser.
pub proof fn lemma_and_lines_continue_block<S, P: StepParser<S>>(
    prod: P,
    s: Seq<char>,
    p: int,
    kw: Seq<char>,
    first: S,
    second: S,
    third: S,
    n1: nat,
    n2: nat,
    n3: nat,
)
    requires
        kw.len() > 0,
        char_at(s, p, kw[0]),
        spec_step_line(prod, s, p, kw) == Ok::<(S, nat), int>((first, n1)),
        spec_step_line(prod, s, p + n1, and_kw()) == Ok::<(S, nat), int>((second, n2)),
        spec_step_line(prod, s, p + n1 + n2, and_kw()) == Ok::<(S, nat), int>((third, n3)),
        !char_at(s, p + n1 + n2 + n3, 'A'),
    ensures
        spec_block(prod, s, p, kw) == Ok::<(Seq<S>, nat), int>(
            (seq![first, second, third], n1 + n2 + n3),
        ),
{
    reveal(spec_block);
    let q1 = p + n1;
    let q2 = p + n1 + n2;
    assert(s.subrange(q1, q1 + 4)[0] == s[q1]);
    assert(s.subrange(q2, q2 + 4)[0] == s[q2]);
    assert(char_at(s, q1, 'A'));
    assert(char_at(s, q2, 'A'));
    assert(spec_and_lines(prod, s, p + n1 + n2 + n3) == Ok::<(Seq<S>, nat), int>(
        (Seq::<S>::empty(), 0),
    ));
    assert(seq![third] + Seq::<S>::empty() =~= seq![third]);
    assert(spec_and_lines(prod, s, q2) == Ok::<(Seq<S>, nat), int>((seq![third], n3)));
    assert(seq![second] + seq![third] =~= seq![second, third]);
    assert(spec_and_lines(prod, s, q1) == Ok::<(Seq<S>, nat), int>((seq![second, third], n2 + n3)));
    assert(seq![first] + seq![second, third] =~= seq![first, second, third]);
}

/// Relies on `str::trim`: the text without its leading and trailing
/// whitespace, which depends on the text alone.
#[verifier::external_body]
fn trim_text(s: &str) -> (r: String)
    ensures
        r@ == trimmed(s@),
{
    s.trim().to_string()
}

/// Relies on `itertools::concat`: the elements of the three vectors, in
/// order, as one vector.
#[verifier::external_body]
fn concat_steps<S>(given: Vec<S>, when: Vec<S>, then: Vec<S>) -> (r: Vec<S>)
    ensures
        r@ == given@ + when@ + then@,
{
    itertools::concat(vec![given, when, then])
}

/// The characters of `text`, in order.
fn chars_of(text: &str) -> (r: Vec<char>)
    ensures
        r@ == text@,
{
    broadcast use vstd::string::group_string_axioms;

    let mut v: Vec<char> = Vec::new();
    for c in it: text.chars()
        invariant
            it.seq() == text@,
            v@ == it.seq().take(it.index()),
    {
        v.push(c);
        assert(v@ =~= it.seq().take(it.index() + 1));
    }
    assert(v@ =~= text@);
    v
}

fn has_literal(s: &Vec<char>, p: usize, lit: &str) -> (r: bool)
    requires
        p <= s.len(),
    ensures
        r == has_lit(s@, p as int, lit@),
{
    let n = lit.unicode_len();
    if n > s.len() - p {
        return false;
    }
    let mut i: usize = 0;
    while i < n
        invariant
            n == lit@.len(),
            p + n <= s.len(),
            i <= n,
            forall|j: int| 0 <= j < i ==> s@[p + j] == lit@[j],
        decreases n - i,
    {
        if s[p + i] != lit.get_char(i) {
            assert(s@.subrange(p as int, p + n)[i as int] != lit@[i as int]);
            return false;
        }
        i += 1;
    }
    assert(s@.subrange(p as int, p + n) =~= lit@);
    true
}

fn step_line<S, P: StepParser<S>>(
    prod: &P,
    s: &Vec<char>,
    text: &str,
    p: usize,
    kw: &str,
) -> (r: Result<(S, usize), usize>)
    requires
        s@ == text@,
        p <= s.len(),
    ensures
        match (r, spec_step_line(*prod, s@, p as int, kw@)) {
            (Ok((v, n)), Ok((m, k))) => v == m && n == k && p + n <= s.len(),
            (Err(x), Err(y)) => x == y,
            _ => false,
        },
{
    if !has_literal(s, p, kw) {
        return Err(p);
    }
    let t = p + kw.unicode_len();
    let k = line_length(s, t);
    match prod.parse(text.substring_char(t, t + k)) {
        Some(step) => match eol(s, t + k) {
            Ok(e) => Ok((step, kw.unicode_len() + k + e)),
            Err(x) => Err(x),
        },
        None => Err(t),
    }
}

fn and_lines<S, P: StepParser<S>>(prod: &P, s: &Vec<char>, text: &str, p: usize) -> (r: Result<
    (Vec<S>, usize),
    usize,
>)
    requires
        s@ == text@,
        p <= s.len(),
    ensures
        match (r, spec_and_lines(*prod, s@, p as int)) {
            (Ok((v, n)), Ok((m, k))) => v@ == m && n == k && p + n <= s.len(),
            (Err(x), Err(y)) => x == y,
            _ => false,
        },
    decreases s.len() - p,
{
    if p < s.len() && s[p] == 'A' {
        let kw = "And ";
        proof {
            reveal_strlit("And ");
        }
        assert(kw@ =~= and_kw());
        match step_line(prod, s, text, p, kw) {
            Ok((step, n)) => match and_lines(prod, s, text, p + n) {
                Ok((rest, m)) => {
                    let mut steps = rest;
                    steps.insert(0, step);
                    assert(steps@ =~= seq![step] + rest@);
                    Ok((steps, n + m))
                },
                Err(x) => Err(x),
            },
            Err(x) => Err(x),
        }
    } else {
        Ok((Vec::new(), 0))
    }
}

/// Parse the block of one keyword: a line that begins with `kw`, then its
/// `And ` lines. No steps where the text does not begin with the keyword's
/// first letter.
fn scenario_block<S, P: StepParser<S>>(
    prod: &P,
    s: &Vec<char>,
    text: &str,
    p: usize,
    kw: &str,
) -> (r: Result<(Vec<S>, usize), usize>)
    requires
        s@ == text@,
        p <= s.len(),
        kw@.len() > 0,
    ensures
        match (r, spec_block(*prod, s@, p as int, kw@)) {
            (Ok((v, n)), Ok((m, k))) => v@ == m && n == k && p + n <= s.len(),
            (Err(x), Err(y)) => x == y,
            _ => false,
        },
{
    reveal(spec_block);
    if p < s.len() && s[p] == kw.get_char(0) {
        match step_line(prod, s, text, p, kw) {
            Ok((first, n)) => match and_lines(prod, s, text, p + n) {
                Ok((rest, m)) => {
                    let mut steps = rest;
                    steps.insert(0, first);
                    assert(steps@ =~= seq![first] + rest@);
                    Ok((steps, n + m))
                },
                Err(x) => Err(x),
            },
            Err(x) => Err(x),
        }
    } else {
        Ok((Vec::new(), 0))
    }
}

/// The name as mathematical text, if there is one.
pub open spec fn name_view(name: Option<String>) -> Option<Seq<char>> {
    match name {
        Some(n) => Some(n@),
        None => None,
    }
}

fn header(s: &Vec<char>, text: &str, p: usize, kw: &str) -> (r: Result<
    (Option<String>, usize),
    usize,
>)
    requires
        s@ == text@,
        p <= s.len(),
    ensures
        match (r, spec_header(s@, p as int, kw@)) {
            (Ok((v, n)), Ok((m, k))) => name_view(v) == m && n == k && p + n <= s.len(),
            (Err(x), Err(y)) => x == y,
            _ => false,
        },
{
    reveal(spec_header);
    if !has_literal(s, p, kw) {
        return Err(p);
    }
    let t = p + kw.unicode_len();
    match until_eol(s, t) {
        Ok((k, n)) => Ok((Some(trim_text(text.substring_char(t, t + k))), kw.unicode_len() + n)),
        Err(_) => {
            if t < s.len() && s[t] == '\n' {
                Ok((None, kw.unicode_len() + 1))
            } else {
                Err(t)
            }
        },
    }
}

fn scenario<S, G: StepParser<S>, W: StepParser<S>, T: StepParser<S>>(
    given: &G,
    when: &W,
    then: &T,
    s: &Vec<char>,
    text: &str,
    p: usize,
    kw: &str,
) -> (r: Result<(Scenario<S>, usize), usize>)
    requires
        s@ == text@,
        p <= s.len(),
    ensures
        match (r, spec_scenario(*given, *when, *then, s@, p as int, kw@)) {
            (Ok((v, n)), Ok((m, k))) => v@ == m && n == k && p + n <= s.len(),
            (Err(x), Err(y)) => x == y,
            _ => false,
        },
{
    reveal(spec_scenario);
    let given_word = "Given ";
    let when_word = "When ";
    let then_word = "Then ";
    proof {
        reveal_strlit("Given ");
        reveal_strlit("When ");
        reveal_strlit("Then ");
    }
    assert(given_word@ =~= given_kw());
    assert(when_word@ =~= when_kw());
    assert(then_word@ =~= then_kw());
    let (name, n0) = match header(s, text, p, kw) {
        Ok(h) => h,
        Err(x) => return Err(x),
    };
    let (gs, n1) = match scenario_block(given, s, text, p + n0, given_word) {
        Ok(b) => b,
        Err(x) => return Err(x),
    };
    let (ws, n2) = match scenario_block(when, s, text, p + n0 + n1, when_word) {
        Ok(b) => b,
        Err(x) => return Err(x),
    };
    let (ts, n3) = match scenario_block(then, s, text, p + n0 + n1 + n2, then_word) {
        Ok(b) => b,
        Err(x) => return Err(x),
    };
    Ok((Scenario { name, steps: concat_steps(gs, ws, ts) }, n0 + n1 + n2 + n3))
}

fn background<S, G: StepParser<S>, W: StepParser<S>, T: StepParser<S>>(
    given: &G,
    when: &W,
    then: &T,
    s: &Vec<char>,
    text: &str,
    p: usize,
) -> (r: Result<(Option<TestCase<S>>, usize), usize>)
    requires
        s@ == text@,
        p <= s.len(),
    ensures
        match (r, spec_background(*given, *when, *then, s@, p as int)) {
            (Ok((v, n)), Ok((m, k))) => (match v {
                Some(c) => Some(c@),
                None => None,
            }) == m && n == k && p + n <= s.len(),
            (Err(x), Err(y)) => x == y,
            _ => false,
        },
{
    reveal(spec_background);
    if p < s.len() && s[p] == 'B' {
        let kw = "Background:";
        proof {
            reveal_strlit("Background:");
        }
        assert(kw@ =~= background_kw());
        match scenario(given, when, then, s, text, p, kw) {
            Err(x) => Err(x),
            Ok((bg, n)) => match blank_lines(s, p + n) {
                Err(x) => Err(x),
                Ok(b) => Ok((Some(TestCase::Background(bg)), n + b)),
            },
        }
    } else {
        Ok((None, 0))
    }
}

fn scenarios<S, G: StepParser<S>, W: StepParser<S>, T: StepParser<S>>(
    given: &G,
    when: &W,
    then: &T,
    s: &Vec<char>,
    text: &str,
    p: usize,
) -> (r: Result<(Vec<TestCase<S>>, usize), usize>)
    requires
        s@ == text@,
        p <= s.len(),
    ensures
        match (r, spec_scenarios(*given, *when, *then, s@, p as int)) {
            (Ok((v, n)), Ok((m, k))) => v@.map_values(|c: TestCase<S>| c@) == m && n == k && p
                + n <= s.len(),
            (Err(x), Err(y)) => x == y,
            _ => false,
        },
    decreases s.len() - p,
{
    let kw = "Scenario:";
    proof {
        reveal_strlit("Scenario:");
    }
    assert(kw@ =~= scenario_kw());
    let (sc, n) = match scenario(given, when, then, s, text, p, kw) {
        Ok(r) => r,
        Err(x) => return Err(x),
    };
    match blank_lines(s, p + n) {
        Err(_) => {
            let cases = vec![TestCase::Scenario(sc)];
            assert(cases@.map_values(|c: TestCase<S>| c@) =~= seq![TestCaseModel::Scenario(sc@)]);
            Ok((cases, n))
        },
        Ok(b) => {
            proof {
                lemma_after_separator(*given, *when, *then, s@, p + n + 1);
            }
            match scenarios(given, when, then, s, text, p + n + b) {
            Ok((rest, m)) => {
                let mut cases = rest;
                let ghost sv = sc@;
                cases.insert(0, TestCase::Scenario(sc));
                assert(cases@.map_values(|c: TestCase<S>| c@) =~= seq![TestCaseModel::Scenario(sv)]
                    + rest@.map_values(|c: TestCase<S>| c@));
                Ok((cases, n + b + m))
            },
            Err(x) => Err(x),
        }
        },
    }
}

/// Parses a feature text with the step parsers `given`, `when` and `then`.
/// Gives the feature and the number of characters it takes up, or the
/// position at which the text departs from the grammar.
pub fn feature<S, G: StepParser<S>, W: StepParser<S>, T: StepParser<S>>(
    given: &G,
    when: &W,
    then: &T,
    input: &str,
) -> (r: Result<(Feature<S>, usize), ParseError>)
    ensures
        match (r, spec_feature(*given, *when, *then, input@)) {
            (Ok((f, n)), Ok((m, k))) => f@ == m && n == k,
            (Err(e), Err(x)) => e.position == x,
            _ => false,
        },
{
    let s = chars_of(input);
    let p0 = newline_run(&s, 0);
    let kw = "Feature: ";
    proof {
        reveal_strlit("Feature: ");
    }
    assert(kw@ =~= feature_kw());
    if !has_literal(&s, p0, kw) {
        return Err(ParseError { position: p0 });
    }
    let p1 = p0 + kw.unicode_len();
    let (k, n) = match until_eol(&s, p1) {
        Ok(r) => r,
        Err(x) => return Err(ParseError { position: x }),
    };
    let name = String::from_str(input.substring_char(p1, p1 + k));
    let p2 = p1 + n;
    let (ck, cn) = line_block(&s, p2);
    let comment = String::from_str(input.substring_char(p2, p2 + ck));
    let p3 = p2 + cn;
    let b = match blank_lines(&s, p3) {
        Ok(b) => b,
        Err(x) => return Err(ParseError { position: x }),
    };
    let p4 = p3 + b;
    let (bg, nb) = match background(given, when, then, &s, input, p4) {
        Ok(r) => r,
        Err(x) => return Err(ParseError { position: x }),
    };
    let (cases, nc) = match scenarios(given, when, then, &s, input, p4 + nb) {
        Ok(r) => r,
        Err(x) => return Err(ParseError { position: x }),
    };
    let f = Feature { name, comment, background: bg, test_cases: cases };
    Ok((f, p4 + nb + nc))
}

} // verus!

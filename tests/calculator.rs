use rherkin::ast::{Step, TestContext, TestResult};
use rherkin::parser::{feature, StepParser};
use vstd::seq::Seq;

// An rpn calculator, something we can write tests for.
#[derive(Debug)]
pub struct Calculator {
    /// The digits that are currently being entered
    pub current: Vec<u32>,

    /// The data stack
    pub stack: Vec<u32>,
}

#[derive(Clone, Debug)]
pub enum Button {
    Number(u32),
    Enter,
    Plus,
    Minus,
    Times,
    Divide,
}

impl Calculator {
    fn press(&mut self, button: &Button) -> bool {
        match button {
            Button::Number(n) => {
                if *n <= 9 {
                    self.current.push(*n);
                    true
                } else {
                    false
                }
            }
            Button::Enter => {
                let mut n: u32 = 0;
                let mut factor = 1;
                for digit in self.current.iter().rev() {
                    n += digit * factor;
                    factor *= 10;
                }
                self.stack.push(n);
                self.current.clear();
                true
            }
            Button::Plus => {
                self.press(&Button::Enter);
                let a = match self.stack.pop() {
                    Some(x) => x,
                    None => return false,
                };
                let b = match self.stack.pop() {
                    Some(x) => x,
                    None => return false,
                };
                self.stack.push(a + b);
                true
            }
            _ => false,
        }
    }
}

impl TestContext for Calculator {
    fn spec_new() -> Calculator {
        Calculator::new()
    }

    fn new() -> Calculator {
        Calculator { current: vec![], stack: vec![] }
    }
}

pub enum CalcStep {
    Clear,
    Press(Button),
    CheckDisplay(String),
}

impl Step<Calculator> for CalcStep {
    fn spec_eval(&self, context: Calculator) -> (bool, Calculator) {
        let mut calc = context;
        let pass = self.eval(&mut calc);
        (pass, calc)
    }

    fn eval(&self, calc: &mut Calculator) -> bool {
        match self {
            CalcStep::Clear => {
                calc.current = vec![];
                calc.stack = vec![];
                true
            }
            CalcStep::Press(button) => calc.press(button),
            CalcStep::CheckDisplay(expected) => match calc.stack.last() {
                Some(n) => format!("{}", n) == *expected,
                None => false,
            },
        }
    }
}

struct ClearParser;
struct PressParser;
struct CheckDisplayParser;

impl StepParser<CalcStep> for ClearParser {
    // the specification's view of `parse`; only the verifier reads it
    fn spec_parse(&self, _text: Seq<char>) -> Option<CalcStep> {
        unreachable!()
    }

    fn parse(&self, text: &str) -> Option<CalcStep> {
        if text == "a fresh calculator" {
            Some(CalcStep::Clear)
        } else {
            None
        }
    }
}

impl StepParser<CalcStep> for PressParser {
    // the specification's view of `parse`; only the verifier reads it
    fn spec_parse(&self, _text: Seq<char>) -> Option<CalcStep> {
        unreachable!()
    }

    fn parse(&self, text: &str) -> Option<CalcStep> {
        let button = match text.strip_prefix("I press ")? {
            "enter" => Button::Enter,
            "plus" => Button::Plus,
            "minus" => Button::Minus,
            "times" => Button::Times,
            "divide" => Button::Divide,
            other => {
                let mut chars = other.chars();
                let n = chars.next()?.to_digit(10)?;
                if chars.next().is_some() {
                    return None;
                }
                Button::Number(n)
            }
        };
        Some(CalcStep::Press(button))
    }
}

impl StepParser<CalcStep> for CheckDisplayParser {
    // the specification's view of `parse`; only the verifier reads it
    fn spec_parse(&self, _text: Seq<char>) -> Option<CalcStep> {
        unreachable!()
    }

    fn parse(&self, text: &str) -> Option<CalcStep> {
        let digits = text.strip_prefix("the display should read ")?;
        if !digits.is_empty() && digits.chars().all(|c| c.is_ascii_digit()) {
            Some(CalcStep::CheckDisplay(digits.to_string()))
        } else {
            None
        }
    }
}

#[test]
fn scenarios() {
    let spec = r#"Feature: RPN Calculator Arithmetic
The calculator supports basic addition, subtraction, multiplication, and
division operations.

Scenario: basic addition
Given a fresh calculator
When I press 1
And I press enter
And I press 1
And I press plus
Then the display should read 2
"#;

    let (f, _remaining) = feature(&ClearParser, &PressParser, &CheckDisplayParser, spec).unwrap();

    let results: Vec<TestResult<Calculator>> = f.eval();
    for r in results {
        assert!(r.pass);
    }
}

#[test]
fn calculator_failure_keeps_partial_state() {
    let spec = "Feature: Calc\n\nScenario: wrong sum\nGiven a fresh calculator\nWhen I press 2\nAnd I press enter\nAnd I press 3\nAnd I press plus\nThen the display should read 6\n";
    let (f, _) = feature(&ClearParser, &PressParser, &CheckDisplayParser, spec).unwrap();
    assert_eq!(f.comment, "");
    let results: Vec<TestResult<Calculator>> = f.eval();
    assert_eq!(results.len(), 1);
    assert!(!results[0].pass);
    assert_eq!(results[0].test_case_name, "wrong sum");
    assert_eq!(results[0].context.stack, vec![5]);
}

//! What solving a problem answered, and how it is written and reported.

use crate::problem::expression::to_lang::cat;
use crate::problem::problem::Problem;
use crate::problem::problem::SpecProblem;
use crate::report::Color;
use crate::report::Message;
use crate::report::Report;
use crate::report::SpecMessage;
use crate::report::SpecReport;
use crate::report::Status;
use crate::report::Style;
use crate::report::Text;
use crate::report::txt;
use crate::solution::solution::Solution;
use crate::solution::solution::solution_lang;
use crate::solution::solution::solution_ok;
use vstd::string::*;
use vstd::prelude::*;

verus! {

/// The answer of the solver: no solution, unknown, or a solution.
pub enum Response {
    NoSolution,
    Unknown,
    Solution(Solution),
}

/// How a response is written.
pub open spec fn response_lang(p: SpecProblem, r: Response) -> Seq<char> {
    match r {
        Response::NoSolution => "no solution"@,
        Response::Unknown => "unknown"@,
        Response::Solution(s) => "one solution:\n"@ + solution_lang(p, s),
    }
}

/// The report of a response: a failure `UNSAT`, a question `UNKNOWN`, or a
/// success `SAT` with the solution written.
pub open spec fn response_report(p: SpecProblem, r: Response) -> SpecReport {
    let title = txt("Solve   "@, Style::Bold, Color::Blue);
    match r {
        Response::NoSolution => SpecReport {
            status: Status::Failure,
            title,
            result: Some(txt("UNSAT"@, Style::Reset, Color::Red)),
            messages: seq![],
        },
        Response::Unknown => SpecReport {
            status: Status::Question,
            title,
            result: Some(txt("UNKNOWN"@, Style::Reset, Color::Red)),
            messages: seq![],
        },
        Response::Solution(s) => SpecReport {
            status: Status::Success,
            title,
            result: Some(txt("SAT"@, Style::Reset, Color::Green)),
            messages: seq![
                SpecMessage { title: None, text: txt(solution_lang(p, s), Style::Reset, Color::White) },
            ],
        },
    }
}

/// A response can be written: its solution names declarations of the
/// problem.
pub open spec fn response_ok(p: SpecProblem, r: Response) -> bool {
    match r {
        Response::Solution(s) => solution_ok(p, s),
        _ => true,
    }
}

impl Response {
    /// How the response is written.
    pub fn to_lang(&self, problem: &Problem) -> (r: String)
        requires
            problem@.wf(),
            problem@.exprs_resolved(),
            response_ok(problem@, *self),
        ensures
            r@ == response_lang(problem@, *self),
    {
        match self {
            Response::NoSolution => String::from_str("no solution"),
            Response::Unknown => String::from_str("unknown"),
            Response::Solution(s) => cat(String::from_str("one solution:\n"), s.to_lang(problem).as_str()),
        }
    }

    /// The report of the response.
    pub fn to_entry(&self, problem: &Problem) -> (r: Report)
        requires
            problem@.wf(),
            problem@.exprs_resolved(),
            response_ok(problem@, *self),
        ensures
            r@ == response_report(problem@, *self),
    {
        let title = Text::new(String::from_str("Solve   "), Style::Bold, Color::Blue);
        let r = match self {
            Response::NoSolution => Report {
                status: Status::Failure,
                title,
                result: Some(Text::new(String::from_str("UNSAT"), Style::Reset, Color::Red)),
                messages: Vec::new(),
            },
            Response::Unknown => Report {
                status: Status::Question,
                title,
                result: Some(Text::new(String::from_str("UNKNOWN"), Style::Reset, Color::Red)),
                messages: Vec::new(),
            },
            Response::Solution(s) => {
                let m = Message {
                    title: None,
                    text: Text::new(s.to_lang(problem), Style::Reset, Color::White),
                };
                let v = vec![m];
                Report {
                    status: Status::Success,
                    title,
                    result: Some(Text::new(String::from_str("SAT"), Style::Reset, Color::Green)),
                    messages: v,
                }
            },
        };
        proof {
            assert(r@.messages =~= response_report(problem@, *self).messages);
        }
        r
    }
}

/// The report of the current value of an objective during optimization.
pub open spec fn optim_report(value: Seq<char>) -> SpecReport {
    SpecReport {
        status: Status::Info,
        title: txt("Optimize"@, Style::Bold, Color::Blue),
        result: Some(txt("Current Solution"@, Style::Reset, Color::Green)),
        messages: seq![SpecMessage { title: None, text: txt(value, Style::Reset, Color::White) }],
    }
}

/// The report of the current value of an objective during optimization.
pub fn current_optim(value: String) -> (r: Report)
    ensures
        r@ == optim_report(value@),
{
    let m = Message { title: None, text: Text::new(value, Style::Reset, Color::White) };
    let r = Report {
        status: Status::Info,
        title: Text::new(String::from_str("Optimize"), Style::Bold, Color::Blue),
        result: Some(Text::new(String::from_str("Current Solution"), Style::Reset, Color::Green)),
        messages: vec![m],
    };
    proof {
        assert(r@.messages =~= optim_report(value@).messages);
    }
    r
}

/// The report of a text shown for information, such as what the solver
/// was given or the model it found.
pub open spec fn info_report(title: Seq<char>, text: Seq<char>) -> SpecReport {
    SpecReport {
        status: Status::Info,
        title: txt(title, Style::Bold, Color::Blue),
        result: None,
        messages: seq![SpecMessage { title: None, text: txt(text, Style::Reset, Color::White) }],
    }
}

/// The report of a text shown for information.
pub fn info_entry(title: &str, text: String) -> (r: Report)
    ensures
        r@ == info_report(title@, text@),
{
    let m = Message { title: None, text: Text::new(text, Style::Reset, Color::White) };
    let r = Report {
        status: Status::Info,
        title: Text::new(String::from_str(title), Style::Bold, Color::Blue),
        result: None,
        messages: vec![m],
    };
    proof {
        assert(r@.messages =~= info_report(title@, text@).messages);
    }
    r
}

} // verus!

//! Reports shown to the user: a status, a title, an outcome and messages,
//! each text with a style and a color.

use crate::error::Error;
use crate::error::SpecError;
use crate::error::texts_view;
use crate::error_text::all_types_valid;
use crate::error_text::error_printable;
use crate::error_text::type_langs;
use crate::parser::position::Position;
use crate::parser::position::SpecPosition;
use crate::parser::position::opt_pos;
use crate::parser::position::position_text;
use crate::problem::expression::position::spec_expr_position;
use crate::problem::expression::to_lang::cat;
use crate::problem::expression::to_lang::spec_expr_lang;
use crate::problem::ids::Id;
use crate::problem::lang::problem_lang;
use crate::problem::lang::problem_printable;
use crate::problem::parameter::Parameter;
use crate::problem::problem::Problem;
use crate::problem::problem::SpecProblem;
use crate::problem::relations::type_lang;
use crate::problem::relations::type_valid;
use crate::problem::typing::Type;
use crate::problem::typing::types_view;
use crate::text::join;
use crate::text::join_strings;
use crate::text::nat_text;
use crate::text::usize_text;
use vstd::string::*;
use vstd::prelude::*;

verus! {

/// How a report ended.
#[derive(Clone, Copy, PartialEq, Eq, Debug, Structural)]
pub enum Status {
    Info,
    Success,
    Failure,
    Question,
}

/// The style of a text.
#[derive(Clone, Copy, PartialEq, Eq, Debug, Structural)]
pub enum Style {
    Bold,
    Reset,
}

/// The color of a text.
#[derive(Clone, Copy, PartialEq, Eq, Debug, Structural)]
pub enum Color {
    Blue,
    Cyan,
    Green,
    LightBlue,
    Red,
    White,
}

/// A text with its style and color.
pub struct Text {
    pub text: String,
    pub style: Style,
    pub color: Color,
}

pub struct SpecText {
    pub text: Seq<char>,
    pub style: Style,
    pub color: Color,
}

impl View for Text {
    type V = SpecText;

    open spec fn view(&self) -> SpecText {
        SpecText { text: self.text@, style: self.style, color: self.color }
    }
}

/// A message of a report: an optional title and a text.
pub struct Message {
    pub title: Option<Text>,
    pub text: Text,
}

pub struct SpecMessage {
    pub title: Option<SpecText>,
    pub text: SpecText,
}

/// View of an optional text.
pub open spec fn opt_text_view(t: Option<Text>) -> Option<SpecText> {
    match t {
        Some(x) => Some(x@),
        None => None,
    }
}

impl View for Message {
    type V = SpecMessage;

    open spec fn view(&self) -> SpecMessage {
        SpecMessage { title: opt_text_view(self.title), text: self.text@ }
    }
}

/// View of a list of messages.
pub open spec fn messages_view(s: Seq<Message>) -> Seq<SpecMessage> {
    s.map_values(|m: Message| m@)
}

/// A report: a status, a title, an optional outcome, and messages.
pub struct Report {
    pub status: Status,
    pub title: Text,
    pub result: Option<Text>,
    pub messages: Vec<Message>,
}

pub struct SpecReport {
    pub status: Status,
    pub title: SpecText,
    pub result: Option<SpecText>,
    pub messages: Seq<SpecMessage>,
}

impl View for Report {
    type V = SpecReport;

    open spec fn view(&self) -> SpecReport {
        SpecReport {
            status: self.status,
            title: self.title@,
            result: opt_text_view(self.result),
            messages: messages_view(self.messages@),
        }
    }
}

//---------- What the reports hold ----------

pub open spec fn txt(s: Seq<char>, style: Style, color: Color) -> SpecText {
    SpecText { text: s, style, color }
}

/// The text between quotes.
pub open spec fn quoted(s: Seq<char>) -> Seq<char> {
    "'"@ + s + "'"@
}

/// A message with a red title and a light blue text.
pub open spec fn red_message(title: Seq<char>, text: Seq<char>) -> SpecMessage {
    SpecMessage {
        title: Some(txt(title, Style::Reset, Color::Red)),
        text: txt(text, Style::Reset, Color::LightBlue),
    }
}

/// The message that tells where something was written.
pub open spec fn position_message(p: SpecPosition) -> SpecMessage {
    SpecMessage {
        title: Some(txt("At"@, Style::Reset, Color::White)),
        text: txt(position_text(p), Style::Reset, Color::LightBlue),
    }
}

/// The message of a position, if any.
pub open spec fn position_messages(p: Option<SpecPosition>) -> Seq<SpecMessage> {
    match p {
        Some(x) => seq![position_message(x)],
        None => seq![],
    }
}

/// The message that lists what was expected, separated by spaces.
pub open spec fn expected_message(expected: Seq<Seq<char>>) -> SpecMessage {
    SpecMessage {
        title: Some(txt("Expexted"@, Style::Reset, Color::White)),
        text: txt(join(expected, " "@), Style::Reset, Color::LightBlue),
    }
}

/// A failure report of title `title` with the messages `m`.
pub open spec fn failure(title: Seq<char>, m: Seq<SpecMessage>) -> SpecReport {
    SpecReport {
        status: Status::Failure,
        title: txt(title, Style::Bold, Color::Blue),
        result: Some(txt("ERROR"@, Style::Reset, Color::Red)),
        messages: m,
    }
}

/// The report of a stage that went through.
pub open spec fn ok_report(title: Seq<char>) -> SpecReport {
    SpecReport {
        status: Status::Success,
        title: txt(title, Style::Bold, Color::Blue),
        result: Some(txt("OK"@, Style::Reset, Color::Green)),
        messages: seq![],
    }
}

/// The report of an error.
pub open spec fn error_report(p: SpecProblem, e: SpecError) -> SpecReport {
    match e {
        SpecError::File { filename, message } => failure(
            "File"@,
            seq![
                red_message("Cannot Read File"@, filename),
                SpecMessage {
                    title: Some(txt("Message"@, Style::Reset, Color::White)),
                    text: txt(message, Style::Reset, Color::LightBlue),
                },
            ],
        ),
        SpecError::Parse { message, token, position, expected } => failure(
            "Parse"@,
            match token {
                Some(t) => seq![red_message(message, quoted(t))],
                None => seq![SpecMessage { title: None, text: txt(message, Style::Reset, Color::Red) }],
            } + position_messages(position) + if expected.len() > 0 {
                seq![expected_message(expected)]
            } else {
                seq![]
            },
        ),
        SpecError::Duplicate { name, first, second } => failure(
            "Unicity"@,
            seq![red_message("Defined Twice"@, quoted(name))] + position_messages(first)
                + position_messages(second),
        ),
        SpecError::Resolve { category: _, name, position } => failure(
            "Resolve"@,
            seq![red_message("Undefined Identifier"@, quoted(name))] + position_messages(position),
        ),
        SpecError::Interval { name, position } => failure(
            "Interval"@,
            seq![red_message("Malformed Interval"@, quoted(name))] + position_messages(position),
        ),
        SpecError::Bounded { name, position } => failure(
            "Bounded"@,
            seq![red_message("Unbounded Type"@, quoted(name))] + position_messages(position),
        ),
        SpecError::Type { expr, typ, expected } => failure(
            "Type"@,
            seq![red_message("Type Error"@, quoted(spec_expr_lang(p, expr)))] + position_messages(
                spec_expr_position(expr),
            ) + seq![
                SpecMessage {
                    title: Some(txt("Type"@, Style::Reset, Color::White)),
                    text: txt(type_lang(p, typ), Style::Reset, Color::LightBlue),
                },
            ] + if expected.len() > 0 {
                seq![expected_message(type_langs(p, expected, expected.len()))]
            } else {
                seq![]
            },
        ),
        SpecError::Parameter { expr, size, expected } => failure(
            "Parameter"@,
            seq![red_message("Wrong Number of Arguments"@, quoted(spec_expr_lang(p, expr)))]
                + position_messages(spec_expr_position(expr)) + seq![
                SpecMessage {
                    title: Some(txt("Arguments"@, Style::Reset, Color::White)),
                    text: txt(nat_text(size as nat), Style::Reset, Color::LightBlue),
                },
                SpecMessage {
                    title: Some(txt("Parameters"@, Style::Reset, Color::White)),
                    text: txt(nat_text(expected as nat), Style::Reset, Color::LightBlue),
                },
            ],
        ),
        SpecError::Empty { name, category } => failure(
            "Empty"@,
            seq![red_message(category + " Without Instance"@, quoted(name))],
        ),
        SpecError::Cycle { name, position } => failure(
            "Cycle"@,
            seq![red_message("Cyclic Class"@, quoted(name))] + position_messages(position),
        ),
    }
}

/// The report that shows a problem.
pub open spec fn problem_report(p: SpecProblem) -> SpecReport {
    SpecReport {
        status: Status::Info,
        title: txt("Problem"@, Style::Bold, Color::Blue),
        result: None,
        messages: seq![SpecMessage { title: None, text: txt(problem_lang(p), Style::Reset, Color::White) }],
    }
}

//---------- Exec ----------

impl Text {
    pub fn new(text: String, style: Style, color: Color) -> (r: Text)
        ensures
            r@ == txt(text@, style, color),
    {
        Text { text, style, color }
    }
}

/// A message with a red title and a light blue text.
fn red_msg(title: &str, text: String) -> (r: Message)
    ensures
        r@ == red_message(title@, text@),
{
    Message {
        title: Some(Text::new(String::from_str(title), Style::Reset, Color::Red)),
        text: Text::new(text, Style::Reset, Color::LightBlue),
    }
}

/// The text between quotes.
fn quote(s: &str) -> (r: String)
    ensures
        r@ == quoted(s@),
{
    cat(cat(String::from_str("'"), s), "'")
}

impl Position {
    /// The message that tells where something was written.
    pub fn to_message(&self) -> (r: Message)
        ensures
            r@ == position_message(self@),
    {
        Message {
            title: Some(Text::new(String::from_str("At"), Style::Reset, Color::White)),
            text: Text::new(self.to_text(), Style::Reset, Color::LightBlue),
        }
    }
}

/// Adds the message of a position, if any.
fn push_position(v: &mut Vec<Message>, p: &Option<Position>)
    ensures
        messages_view(final(v)@) == messages_view(old(v)@) + position_messages(opt_pos(*p)),
{
    let ghost before = v@;
    if let Some(x) = p {
        v.push(x.to_message());
    }
    proof {
        assert(messages_view(v@) =~= messages_view(before) + position_messages(opt_pos(*p)));
    }
}

/// The message that lists what was expected, separated by spaces.
pub fn expected_to_message(expected: &Vec<String>) -> (r: Message)
    ensures
        r@ == expected_message(texts_view(expected@)),
{
    let s = join_strings(expected, " ");
    proof {
        assert(expected@.map_values(|x: String| x@) =~= texts_view(expected@));
    }
    Message {
        title: Some(Text::new(String::from_str("Expexted"), Style::Reset, Color::White)),
        text: Text::new(s, Style::Reset, Color::LightBlue),
    }
}

/// A failure report of title `title` with the messages `messages`.
fn failure_report(title: &str, messages: Vec<Message>) -> (r: Report)
    ensures
        r@ == failure(title@, messages_view(messages@)),
{
    Report {
        status: Status::Failure,
        title: Text::new(String::from_str(title), Style::Bold, Color::Blue),
        result: Some(Text::new(String::from_str("ERROR"), Style::Reset, Color::Red)),
        messages,
    }
}

/// The report of a stage that went through.
pub fn ok_entry(title: &str) -> (r: Report)
    ensures
        r@ == ok_report(title@),
{
    let r = Report {
        status: Status::Success,
        title: Text::new(String::from_str(title), Style::Bold, Color::Blue),
        result: Some(Text::new(String::from_str("OK"), Style::Reset, Color::Green)),
        messages: Vec::new(),
    };
    proof {
        assert(messages_view(r.messages@) =~= seq![]);
    }
    r
}

/// A white message with a title.
fn white_msg(title: &str, text: String) -> (r: Message)
    ensures
        r@ == (SpecMessage {
            title: Some(txt(title@, Style::Reset, Color::White)),
            text: txt(text@, Style::Reset, Color::LightBlue),
        }),
{
    Message {
        title: Some(Text::new(String::from_str(title), Style::Reset, Color::White)),
        text: Text::new(text, Style::Reset, Color::LightBlue),
    }
}

impl Error {
    /// The report of the error.
    pub fn to_entry(&self, problem: &Problem) -> (r: Report)
        requires
            problem@.wf(),
            error_printable(problem@, self@),
        ensures
            r@ == error_report(problem@, self@),
    {
        let mut v: Vec<Message> = Vec::new();
        match self {
            Error::File { filename, message } => {
                v.push(red_msg("Cannot Read File", filename.clone()));
                v.push(white_msg("Message", message.clone()));
                let r = failure_report("File", v);
                proof {
                    assert(r@.messages =~= error_report(problem@, self@).messages);
                }
                r
            },
            Error::Parse { message, token, position, expected } => {
                match token {
                    Some(t) => v.push(red_msg(message.as_str(), quote(t.as_str()))),
                    None => v.push(
                        Message {
                            title: None,
                            text: Text::new(message.clone(), Style::Reset, Color::Red),
                        },
                    ),
                }
                let ghost s1 = messages_view(v@);
                proof {
                    assert(s1 =~= seq![v@[0]@]);
                }
                push_position(&mut v, position);
                let ghost s2 = messages_view(v@);
                if expected.len() > 0 {
                    let m = expected_to_message(expected);
                    let ghost mv = m@;
                    v.push(m);
                    proof {
                        assert(messages_view(v@) =~= s2 + seq![mv]);
                    }
                } else {
                    proof {
                        assert(messages_view(v@) =~= s2 + Seq::<SpecMessage>::empty());
                    }
                }
                let r = failure_report("Parse", v);
                proof {
                    assert(r@.messages =~= error_report(problem@, self@).messages);
                }
                r
            },
            Error::Duplicate { name, first, second } => {
                v.push(red_msg("Defined Twice", quote(name.as_str())));
                push_position(&mut v, first);
                push_position(&mut v, second);
                let r = failure_report("Unicity", v);
                proof {
                    assert(r@.messages =~= error_report(problem@, self@).messages);
                }
                r
            },
            Error::Resolve { category: _, name, position } => {
                v.push(red_msg("Undefined Identifier", quote(name.as_str())));
                push_position(&mut v, position);
                let r = failure_report("Resolve", v);
                proof {
                    assert(r@.messages =~= error_report(problem@, self@).messages);
                }
                r
            },
            Error::Interval { name, position } => {
                v.push(red_msg("Malformed Interval", quote(name.as_str())));
                push_position(&mut v, position);
                let r = failure_report("Interval", v);
                proof {
                    assert(r@.messages =~= error_report(problem@, self@).messages);
                }
                r
            },
            Error::Bounded { name, position } => {
                v.push(red_msg("Unbounded Type", quote(name.as_str())));
                push_position(&mut v, position);
                let r = failure_report("Bounded", v);
                proof {
                    assert(r@.messages =~= error_report(problem@, self@).messages);
                }
                r
            },
            Error::Type { expr, typ, expected } => {
                proof {
                    assert(all_types_valid(problem@, types_view(expected@)));
                }
                v.push(red_msg("Type Error", quote(expr.to_lang(problem).as_str())));
                proof {
                    assert(messages_view(v@) =~= seq![v@[0]@]);
                }
                push_position(&mut v, &expr.position());
                let ghost s2 = messages_view(v@);
                let w = white_msg("Type", typ.to_lang(problem));
                let ghost wv = w@;
                v.push(w);
                let ghost s3 = messages_view(v@);
                proof {
                    assert(s3 =~= s2 + seq![wv]);
                }
                if expected.len() > 0 {
                    let mut names: Vec<String> = Vec::new();
                    let mut i: usize = 0;
                    let ghost ts = types_view(expected@);
                    while i < expected.len()
                        invariant
                            i <= expected.len(),
                            names@.len() == i,
                            ts == types_view(expected@),
                            all_types_valid(problem@, ts),
                            names@.map_values(|x: String| x@) == type_langs(problem@, ts, i as nat),
                        decreases expected.len() - i,
                    {
                        let ghost before = names@;
                        proof {
                            assert(ts[i as int] == expected@[i as int]@);
                            assert(type_valid(problem@, ts[i as int]));
                        }
                        names.push(expected[i].to_lang(problem));
                        proof {
                            assert(names@.map_values(|x: String| x@) =~= before.map_values(|x: String| x@).push(
                                names@[i as int]@,
                            ));
                        }
                        i += 1;
                    }
                    proof {
                        assert(texts_view(names@) =~= names@.map_values(|x: String| x@));
                    }
                    let m = expected_to_message(&names);
                    let ghost mv = m@;
                    v.push(m);
                    proof {
                        assert(messages_view(v@) =~= s3 + seq![mv]);
                    }
                } else {
                    proof {
                        assert(messages_view(v@) =~= s3 + Seq::<SpecMessage>::empty());
                    }
                }
                let r = failure_report("Type", v);
                proof {
                    assert(r@.messages =~= error_report(problem@, self@).messages);
                }
                r
            },
            Error::Parameter { expr, size, expected } => {
                v.push(red_msg("Wrong Number of Arguments", quote(expr.to_lang(problem).as_str())));
                proof {
                    assert(messages_view(v@) =~= seq![v@[0]@]);
                }
                push_position(&mut v, &expr.position());
                let ghost s2 = messages_view(v@);
                let a = white_msg("Arguments", usize_text(*size));
                let b = white_msg("Parameters", usize_text(*expected));
                let ghost av = a@;
                let ghost bv = b@;
                v.push(a);
                v.push(b);
                proof {
                    assert(messages_view(v@) =~= s2 + seq![av, bv]);
                }
                let r = failure_report("Parameter", v);
                proof {
                    assert(r@.messages =~= error_report(problem@, self@).messages);
                }
                r
            },
            Error::Empty { name, category } => {
                let title = cat(category.clone(), " Without Instance");
                v.push(red_msg(title.as_str(), quote(name.as_str())));
                let r = failure_report("Empty", v);
                proof {
                    assert(r@.messages =~= error_report(problem@, self@).messages);
                }
                r
            },
            Error::Cycle { name, position } => {
                v.push(red_msg("Cyclic Class", quote(name.as_str())));
                push_position(&mut v, position);
                let r = failure_report("Cycle", v);
                proof {
                    assert(r@.messages =~= error_report(problem@, self@).messages);
                }
                r
            },
        }
    }
}

impl Problem {
    /// The report that shows the problem.
    pub fn to_entry(&self) -> (r: Report)
        requires
            problem_printable(self@),
        ensures
            r@ == problem_report(self@),
    {
        let mut v: Vec<Message> = Vec::new();
        v.push(Message { title: None, text: Text::new(self.to_lang(), Style::Reset, Color::White) });
        let r = Report {
            status: Status::Info,
            title: Text::new(String::from_str("Problem"), Style::Bold, Color::Blue),
            result: None,
            messages: v,
        };
        proof {
            assert(r@.messages =~= problem_report(self@).messages);
        }
        r
    }
}

} // verus!

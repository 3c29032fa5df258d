//! Arithmetic on numbers is not done here. The interpreter asks its host:
//! a function from a question about numbers to the answer.
use crate::runtime::lox_variable::Number;
use vstd::prelude::*;

verus! {

#[derive(Clone, Copy, Debug, PartialEq, Eq, Structural)]
pub enum NumberOp {
    Add,
    Subtract,
    Multiply,
    Divide,
    Modulo,
}

#[derive(Clone, Copy, Debug, PartialEq, Eq, Structural)]
pub enum NumberComparison {
    Greater,
    GreaterEqual,
    Less,
    LessEqual,
    Equal,
}

/// A question about numbers.
#[derive(Debug)]
pub enum NumberRequest {
    /// Which number does this literal denote?
    Parse(String),
    Binary(NumberOp, Number, Number),
    Negate(Number),
    Compare(NumberComparison, Number, Number),
    /// How is this number written?
    Format(Number),
}

/// The answer to a question about numbers.
#[derive(Debug)]
pub enum NumberAnswer {
    Number(Number),
    Bool(bool),
    Text(String),
    /// The question has no answer: the literal denotes no number.
    Invalid,
}

pub enum RequestView {
    Parse(Seq<char>),
    Binary(NumberOp, Number, Number),
    Negate(Number),
    Compare(NumberComparison, Number, Number),
    Format(Number),
}

pub enum AnswerView {
    Number(Number),
    Bool(bool),
    Text(Seq<char>),
    Invalid,
}

impl View for NumberRequest {
    type V = RequestView;

    open spec fn view(&self) -> RequestView {
        match self {
            NumberRequest::Parse(text) => RequestView::Parse(text@),
            NumberRequest::Binary(op, a, b) => RequestView::Binary(*op, *a, *b),
            NumberRequest::Negate(a) => RequestView::Negate(*a),
            NumberRequest::Compare(op, a, b) => RequestView::Compare(*op, *a, *b),
            NumberRequest::Format(a) => RequestView::Format(*a),
        }
    }
}

impl View for NumberAnswer {
    type V = AnswerView;

    open spec fn view(&self) -> AnswerView {
        match self {
            NumberAnswer::Number(n) => AnswerView::Number(*n),
            NumberAnswer::Bool(b) => AnswerView::Bool(*b),
            NumberAnswer::Text(text) => AnswerView::Text(text@),
            NumberAnswer::Invalid => AnswerView::Invalid,
        }
    }
}

/// The answers of a host as a mathematical function.
pub type Answers = spec_fn(RequestView) -> AnswerView;

/// Whether `answer` is what the host may return to a question with the
/// value `question`.
pub open spec fn host_may_answer<H: Fn(NumberRequest) -> NumberAnswer>(
    host: &H,
    question: RequestView,
    answer: AnswerView,
) -> bool {
    exists|q: NumberRequest, a: NumberAnswer|
        q@ == question && a@ == answer && host.ensures((q,), a)
}

/// Whether a host can be asked: it takes every question, and what it
/// answers depends on the value of the question alone.
pub open spec fn host_ready<H: Fn(NumberRequest) -> NumberAnswer>(host: &H) -> bool {
    &&& forall|q: NumberRequest| host.requires((q,))
    &&& forall|question: RequestView, a: AnswerView, b: AnswerView|
        host_may_answer(host, question, a) && host_may_answer(host, question, b) ==> a == b
}

/// What a host answers.
pub open spec fn host_answers<H: Fn(NumberRequest) -> NumberAnswer>(host: &H) -> Answers {
    |question: RequestView| choose|answer: AnswerView| host_may_answer(host, question, answer)
}

/// Asks the host.
pub fn ask<H: Fn(NumberRequest) -> NumberAnswer>(host: &H, question: NumberRequest) -> (answer:
    NumberAnswer)
    requires
        host_ready(host),
    ensures
        answer@ == host_answers(host)(question@),
{
    let ghost asked = question@;
    let answer = host(question);
    proof {
        assert(host_may_answer(host, asked, answer@));
    }
    answer
}

/// A host that knows no numbers: it answers every question with
/// `Invalid`. With it, a program that uses no number runs as with any
/// other host.
pub fn silent_host(question: NumberRequest) -> (answer: NumberAnswer)
    ensures
        answer@ == AnswerView::Invalid,
{
    NumberAnswer::Invalid
}

/// What a host may answer to a question is what it answers.
pub proof fn lemma_host_answer<H: Fn(NumberRequest) -> NumberAnswer>(
    host: &H,
    question: NumberRequest,
    answer: NumberAnswer,
)
    requires
        host_ready(host),
        host.ensures((question,), answer),
    ensures
        host_answers(host)(question@) == answer@,
{
    assert(host_may_answer(host, question@, answer@));
}

} // verus!

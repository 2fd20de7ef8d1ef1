//! What the evaluator asks of its surroundings.
//!
//! Floating point arithmetic, the reading and writing of numbers as text, and
//! the console are not decided here. The evaluator asks a [`Host`] for each,
//! through a [`Console`] that keeps a record of every call and of every
//! answer, so that what a run did can be stated exactly, whatever the host
//! answered: every function that is handed a console says what it gives
//! under the answers that the host gave, `final(console).answers@`, and,
//! for the functions that call it, under every sequence of answers that
//! begins with them.

use vstd::prelude::*;
use crate::number::Number;

verus! {

/// The arithmetic of two numbers that gives a number.
#[derive(Clone, Copy, Debug, PartialEq, Eq, Structural)]
pub enum ArithmeticOperator {
    Add,
    Subtract,
    Multiply,
    Divide,
    Remainder,
    Power,
}

/// The services of the surroundings. Nothing is assumed of what they return.
pub trait Host {
    /// The number that a literal spells, if it spells one.
    fn parse_number(&mut self, text: &String) -> Option<Number>;

    /// `left operator right` in binary64 arithmetic.
    fn arithmetic(&mut self, operator: ArithmeticOperator, left: Number, right: Number) -> Number;

    /// The number as text.
    fn format_number(&mut self, value: Number) -> String;

    /// Writes the text and ends the line.
    fn print_line(&mut self, text: &String);

    /// Reads one line of input.
    fn read_line(&mut self) -> String;
}

/// One call of the host, with what was handed to it.
pub enum HostCall {
    ParseNumber(Seq<char>),
    Arithmetic(ArithmeticOperator, u64, u64),
    FormatNumber(u64),
    PrintLine(Seq<char>),
    ReadLine,
}

/// One answer of the host.
pub enum HostAnswer {
    Parsed(Option<u64>),
    Computed(u64),
    Formatted(Seq<char>),
    Printed,
    Line(Seq<char>),
}

/// Whether `oracle` begins with the answers recorded in `log`.
pub open spec fn agrees(log: Seq<HostAnswer>, oracle: Seq<HostAnswer>) -> bool {
    &&& log.len() <= oracle.len()
    &&& forall|i: int| 0 <= i < log.len() ==> log[i] == oracle[i]
}

/// The number that the `i`th answer parsed.
pub open spec fn parsed_at(oracle: Seq<HostAnswer>, i: nat) -> Option<u64> {
    if i < oracle.len() {
        match oracle[i as int] {
            HostAnswer::Parsed(r) => r,
            _ => None,
        }
    } else {
        None
    }
}

/// The number that the `i`th answer computed.
pub open spec fn computed_at(oracle: Seq<HostAnswer>, i: nat) -> u64 {
    if i < oracle.len() {
        match oracle[i as int] {
            HostAnswer::Computed(r) => r,
            _ => 0,
        }
    } else {
        0
    }
}

/// The text that the `i`th answer formatted.
pub open spec fn formatted_at(oracle: Seq<HostAnswer>, i: nat) -> Seq<char> {
    if i < oracle.len() {
        match oracle[i as int] {
            HostAnswer::Formatted(r) => r,
            _ => Seq::empty(),
        }
    } else {
        Seq::empty()
    }
}

/// The line that the `i`th answer read.
pub open spec fn line_at(oracle: Seq<HostAnswer>, i: nat) -> Seq<char> {
    if i < oracle.len() {
        match oracle[i as int] {
            HostAnswer::Line(r) => r,
            _ => Seq::empty(),
        }
    } else {
        Seq::empty()
    }
}

/// A host together with the record of the calls that were made of it and of
/// what it answered.
pub struct Console<H: Host> {
    pub host: H,
    pub calls: Ghost<Seq<HostCall>>,
    pub answers: Ghost<Seq<HostAnswer>>,
}

/// What the evaluator knows of a console: the calls that it has made, in
/// their order. The `i`th call is answered by the `i`th answer.
pub struct ConsoleView {
    pub calls: Seq<HostCall>,
}

impl ConsoleView {
    /// The console after one more call.
    pub open spec fn after(self, call: HostCall) -> ConsoleView {
        ConsoleView { calls: self.calls.push(call) }
    }

    /// How many calls have been made: the place of the next answer.
    pub open spec fn asked(self) -> nat {
        self.calls.len()
    }
}

/// The lines that have been printed, in their order.
pub open spec fn printed_lines(calls: Seq<HostCall>) -> Seq<Seq<char>>
    decreases calls.len(),
{
    if calls.len() == 0 {
        Seq::empty()
    } else {
        match calls.last() {
            HostCall::PrintLine(text) => printed_lines(calls.drop_last()).push(text),
            _ => printed_lines(calls.drop_last()),
        }
    }
}

/// The calls that print the lines, one after the other.
pub open spec fn print_calls(lines: Seq<Seq<char>>) -> Seq<HostCall> {
    Seq::new(lines.len(), |i: int| HostCall::PrintLine(lines[i]))
}

impl<H: Host> View for Console<H> {
    type V = ConsoleView;

    open spec fn view(&self) -> ConsoleView {
        ConsoleView { calls: self.calls@ }
    }
}

impl<H: Host> Console<H> {
    /// A console on `host` of which no call has been made yet.
    pub fn new(host: H) -> (r: Console<H>)
        ensures
            r.host == host,
            r.calls@ == Seq::<HostCall>::empty(),
            r.answers@ == Seq::<HostAnswer>::empty(),
            r.recorded(),
    {
        Console { host, calls: Ghost(Seq::empty()), answers: Ghost(Seq::empty()) }
    }

    /// Whether the record of this console is in order: every call has its
    /// answer on record, so that the console has heard the answers that the
    /// host gave.
    pub open spec fn recorded(&self) -> bool {
        self.heard(self.answers@)
    }

    /// Whether every call of this console has its answer on record, and
    /// what is on record is what `oracle` answers:
    /// `self.answers@.len() == self.calls@.len()` and
    /// `agrees(self.answers@, oracle)`.
    pub closed spec fn heard(&self, oracle: Seq<HostAnswer>) -> bool {
        self.answers@.len() == self.calls@.len() && agrees(self.answers@, oracle)
    }

    /// What `heard` and `recorded` mean.
    pub proof fn lemma_heard(&self, oracle: Seq<HostAnswer>)
        ensures
            self.heard(oracle) == (self.answers@.len() == self.calls@.len() && agrees(
                self.answers@,
                oracle,
            )),
            self.recorded() == (self.answers@.len() == self.calls@.len()),
    {
    }

    /// Asks the host which number the literal spells.
    pub fn parse_number(&mut self, text: &String) -> (r: Option<Number>)
        ensures
            final(self)@ == old(self)@.after(HostCall::ParseNumber(text@)),
            old(self).recorded() ==> final(self).recorded(),
            old(self).recorded() ==> parsed_at(
                final(self).answers@,
                old(self)@.asked(),
            ) == match r {
                Some(n) => Some(n@),
                None => None,
            },
            forall|oracle: Seq<HostAnswer>| #[trigger]
                final(self).heard(oracle) ==> old(self).heard(oracle) && parsed_at(
                    oracle,
                    old(self)@.asked(),
                ) == match r {
                    Some(n) => Some(n@),
                    None => None,
                },
    {
        let r = self.host.parse_number(text);
        proof {
            let answer = HostAnswer::Parsed(
                match r {
                    Some(n) => Some(n@),
                    None => None,
                },
            );
            lemma_recorded(self.answers@, answer);
            self.calls@ = self.calls@.push(HostCall::ParseNumber(text@));
            self.answers@ = self.answers@.push(answer);
        }
        r
    }

    /// Asks the host for `left operator right`.
    pub fn arithmetic(&mut self, operator: ArithmeticOperator, left: Number, right: Number) -> (r:
        Number)
        ensures
            final(self)@ == old(self)@.after(HostCall::Arithmetic(operator, left@, right@)),
            old(self).recorded() ==> final(self).recorded(),
            old(self).recorded() ==> computed_at(
                final(self).answers@,
                old(self)@.asked(),
            ) == r@,
            forall|oracle: Seq<HostAnswer>| #[trigger]
                final(self).heard(oracle) ==> old(self).heard(oracle) && computed_at(
                    oracle,
                    old(self)@.asked(),
                ) == r@,
    {
        let r = self.host.arithmetic(operator, left, right);
        proof {
            let answer = HostAnswer::Computed(r@);
            lemma_recorded(self.answers@, answer);
            self.calls@ = self.calls@.push(HostCall::Arithmetic(operator, left@, right@));
            self.answers@ = self.answers@.push(answer);
        }
        r
    }

    /// Asks the host for the number as text.
    pub fn format_number(&mut self, value: Number) -> (r: String)
        ensures
            final(self)@ == old(self)@.after(HostCall::FormatNumber(value@)),
            old(self).recorded() ==> final(self).recorded(),
            old(self).recorded() ==> formatted_at(
                final(self).answers@,
                old(self)@.asked(),
            ) == r@,
            forall|oracle: Seq<HostAnswer>| #[trigger]
                final(self).heard(oracle) ==> old(self).heard(oracle) && formatted_at(
                    oracle,
                    old(self)@.asked(),
                ) == r@,
    {
        let r = self.host.format_number(value);
        proof {
            let answer = HostAnswer::Formatted(r@);
            lemma_recorded(self.answers@, answer);
            self.calls@ = self.calls@.push(HostCall::FormatNumber(value@));
            self.answers@ = self.answers@.push(answer);
        }
        r
    }

    /// Has the host print the line.
    pub fn print_line(&mut self, text: &String)
        ensures
            final(self)@ == old(self)@.after(HostCall::PrintLine(text@)),
            old(self).recorded() ==> final(self).recorded(),
            forall|oracle: Seq<HostAnswer>| #[trigger]
                final(self).heard(oracle) ==> old(self).heard(oracle),
    {
        self.host.print_line(text);
        proof {
            let answer = HostAnswer::Printed;
            lemma_recorded(self.answers@, answer);
            self.calls@ = self.calls@.push(HostCall::PrintLine(text@));
            self.answers@ = self.answers@.push(answer);
        }
    }

    /// Asks the host for a line of input.
    pub fn read_line(&mut self) -> (r: String)
        ensures
            final(self)@ == old(self)@.after(HostCall::ReadLine),
            old(self).recorded() ==> final(self).recorded(),
            old(self).recorded() ==> line_at(
                final(self).answers@,
                old(self)@.asked(),
            ) == r@,
            forall|oracle: Seq<HostAnswer>| #[trigger]
                final(self).heard(oracle) ==> old(self).heard(oracle) && line_at(
                    oracle,
                    old(self)@.asked(),
                ) == r@,
    {
        let r = self.host.read_line();
        proof {
            let answer = HostAnswer::Line(r@);
            lemma_recorded(self.answers@, answer);
            self.calls@ = self.calls@.push(HostCall::ReadLine);
            self.answers@ = self.answers@.push(answer);
        }
        r
    }
}

/// An oracle that begins with a record and one more answer begins with the
/// record, and gives that answer next.
pub proof fn lemma_recorded(log: Seq<HostAnswer>, answer: HostAnswer)
    ensures
        forall|oracle: Seq<HostAnswer>| #[trigger]
            agrees(log.push(answer), oracle) ==> agrees(log, oracle) && log.len() < oracle.len()
                && oracle[log.len() as int] == answer,
{
    assert forall|oracle: Seq<HostAnswer>| #[trigger]
        agrees(log.push(answer), oracle) implies agrees(log, oracle) && log.len() < oracle.len()
        && oracle[log.len() as int] == answer by {
        assert(log.push(answer)[log.len() as int] == answer);
        assert forall|i: int| 0 <= i < log.len() implies log[i] == oracle[i] by {
            assert(log.push(answer)[i] == oracle[i]);
        }
    }
}

} // verus!

//! The statement-execution engine.
//!
//! Qubit states hold floating-point amplitudes and are kept by the caller;
//! this module decides, statement by statement, what is to be done to them
//! and what the program reports. For each statement the caller asks
//! [`Interpreter::decide`] for an [`Action`], performs it on its qubits, and
//! hands what came of it back to [`Interpreter::execute`] as an [`Event`];
//! [`interpret_program`] runs a whole program that way, with a function of
//! the caller's performing each action. Every statement is always attempted, and each adds at most one line to
//! the output, in program order.

use vstd::prelude::*;
use crate::gate::{Gate, gate_named};
use crate::models::{ProgramNode, StatementNode};
use crate::text::{decimal, write_decimal};

verus! {

/// No name is declared twice.
pub open spec fn distinct(names: Seq<Seq<char>>) -> bool {
    forall|i: int, j: int|
        0 <= i < names.len() && 0 <= j < names.len() && i != j ==> names[i] != names[j]
}

/// The slot of the qubit declared under `id`, if any.
pub open spec fn slot_of(names: Seq<Seq<char>>, id: Seq<char>) -> Option<nat> {
    if exists|i: int| 0 <= i < names.len() && names[i] == id {
        Some((choose|i: int| 0 <= i < names.len() && names[i] == id) as nat)
    } else {
        None
    }
}

/// Reported when a qubit name is declared a second time.
pub open spec fn already_declared_text(id: Seq<char>) -> Seq<char> {
    "Identifier "@ + id + " was already declared"@
}

/// Reported when a new qubit is given other than two amplitudes.
pub open spec fn wrong_arity_text(id: Seq<char>, count: nat) -> Seq<char> {
    "Invalid number of states for qubit "@ + id + ": expected 2, got "@ + decimal(count)
}

/// Reported when both amplitudes of a new qubit are zero.
pub open spec fn zero_amplitudes_text(id: Seq<char>) -> Seq<char> {
    "Cannot create qubit "@ + id + ": both amplitudes are zero"@
}

/// Reported when a name is neither a declared qubit nor, where one is
/// allowed, a gate.
pub open spec fn unresolved_symbol_text(id: Seq<char>) -> Seq<char> {
    "Cannot resolve symbol '"@ + id + "'"@
}

/// Reported when a gate name is not in the catalog.
pub open spec fn unresolved_gate_text(id: Seq<char>) -> Seq<char> {
    "Cannot resolve gate '"@ + id + "'"@
}

/// Reported for a measurement.
pub open spec fn measurement_text(outcome: nat) -> Seq<char> {
    "Result of measurement: "@ + decimal(outcome)
}

/// Reported for a display: the name and what it stands for.
pub open spec fn display_text(id: Seq<char>, shown: Seq<char>) -> Seq<char> {
    id + ": "@ + shown
}

/// What the caller is to do for a statement, in terms of models.
pub enum ActionModel {
    Emit(Seq<char>),
    Create(nat),
    Apply(nat, Gate),
    Measure(nat),
    ShowQubit(nat),
}

/// What the caller is to do for a statement.
pub enum Action {
    /// Nothing but report this line.
    Emit(String),
    /// Evaluate the two amplitude expressions and, unless both are zero,
    /// build the normalised qubit for slot `slot`.
    Create { slot: usize },
    /// Apply `gate` to the qubit in `slot`.
    Apply { slot: usize, gate: Gate },
    /// Measure the qubit in `slot`.
    Measure { slot: usize },
    /// Write out the state of the qubit in `slot`.
    ShowQubit { slot: usize },
}

impl View for Action {
    type V = ActionModel;

    open spec fn view(&self) -> ActionModel {
        match self {
            Action::Emit(s) => ActionModel::Emit(s@),
            Action::Create { slot } => ActionModel::Create(*slot as nat),
            Action::Apply { slot, gate } => ActionModel::Apply(*slot as nat, *gate),
            Action::Measure { slot } => ActionModel::Measure(*slot as nat),
            Action::ShowQubit { slot } => ActionModel::ShowQubit(*slot as nat),
        }
    }
}

/// What came of an action. For `Create`, any event but
/// `Created { nonzero: true }` counts as a refusal; for `Measure` and
/// `ShowQubit`, an event of another kind reports nothing.
pub enum Event {
    /// The action is done (after `Emit` and `Apply`).
    Done,
    /// The qubit was built, or not, because both amplitudes were zero.
    Created { nonzero: bool },
    /// The measurement gave `outcome`, 0 or 1.
    Measured { outcome: u8 },
    /// The qubit's state, written out.
    Rendered { text: String },
}

/// What a statement calls for, given the declared names.
pub open spec fn decision<E>(names: Seq<Seq<char>>, stmt: StatementNode<E>) -> ActionModel {
    match stmt {
        StatementNode::CreateStatement { identifier, complex_array } => {
            if slot_of(names, identifier@) is Some {
                ActionModel::Emit(already_declared_text(identifier@))
            } else if complex_array.values@.len() != 2 {
                ActionModel::Emit(wrong_arity_text(identifier@, complex_array.values@.len()))
            } else {
                ActionModel::Create(names.len())
            }
        },
        StatementNode::ApplyStatement { identifier1, identifier2 } => {
            match slot_of(names, identifier1@) {
                None => ActionModel::Emit(unresolved_symbol_text(identifier1@)),
                Some(slot) => match gate_named(identifier2@) {
                    None => ActionModel::Emit(unresolved_gate_text(identifier2@)),
                    Some(g) => ActionModel::Apply(slot, g),
                },
            }
        },
        StatementNode::MeasureStatement { identifier } => {
            match slot_of(names, identifier@) {
                None => ActionModel::Emit(unresolved_symbol_text(identifier@)),
                Some(slot) => ActionModel::Measure(slot),
            }
        },
        StatementNode::DisplayStatement { identifier } => {
            match slot_of(names, identifier@) {
                Some(slot) => ActionModel::ShowQubit(slot),
                None => match gate_named(identifier@) {
                    Some(g) => ActionModel::Emit(display_text(identifier@, g.spec_text())),
                    None => ActionModel::Emit(unresolved_symbol_text(identifier@)),
                },
            }
        },
    }
}

/// The identifier a statement names first.
pub open spec fn subject<E>(stmt: StatementNode<E>) -> Seq<char> {
    match stmt {
        StatementNode::CreateStatement { identifier, .. } => identifier@,
        StatementNode::ApplyStatement { identifier1, .. } => identifier1@,
        StatementNode::MeasureStatement { identifier } => identifier@,
        StatementNode::DisplayStatement { identifier } => identifier@,
    }
}

/// The declared names after a statement, and the line it reports, if any.
pub open spec fn completion<E>(names: Seq<Seq<char>>, stmt: StatementNode<E>, e: Event) -> (
    Seq<Seq<char>>,
    Option<Seq<char>>,
) {
    match decision(names, stmt) {
        ActionModel::Emit(line) => (names, Some(line)),
        ActionModel::Create(_) => {
            if e matches Event::Created { nonzero } && nonzero {
                (names.push(subject(stmt)), None)
            } else {
                (names, Some(zero_amplitudes_text(subject(stmt))))
            }
        },
        ActionModel::Apply(_, _) => (names, None),
        ActionModel::Measure(_) => {
            match e {
                Event::Measured { outcome } => (names, Some(measurement_text(outcome as nat))),
                _ => (names, None),
            }
        },
        ActionModel::ShowQubit(_) => {
            match e {
                Event::Rendered { text } => (names, Some(display_text(subject(stmt), text@))),
                _ => (names, None),
            }
        },
    }
}

/// The state of one run of a program: the declared qubit names, by slot,
/// and the lines reported so far.
pub struct InterpreterModel {
    pub names: Seq<Seq<char>>,
    pub results: Seq<Seq<char>>,
}

/// Runs the statements of one program.
pub struct Interpreter {
    qubits: Vec<String>,
    results: Vec<String>,
}

impl View for Interpreter {
    type V = InterpreterModel;

    closed spec fn view(&self) -> InterpreterModel {
        InterpreterModel {
            names: self.qubits@.map_values(|s: String| s@),
            results: self.results@.map_values(|s: String| s@),
        }
    }
}

impl Interpreter {
    /// A fresh run: no qubit declared, nothing reported.
    pub fn new() -> (r: Interpreter)
        ensures
            distinct(r@.names),
            r@.names == Seq::<Seq<char>>::empty(),
            r@.results == Seq::<Seq<char>>::empty(),
    {
        let r = Interpreter { qubits: Vec::new(), results: Vec::new() };
        assert(r@.names =~= Seq::<Seq<char>>::empty());
        assert(r@.results =~= Seq::<Seq<char>>::empty());
        r
    }

    /// The slot of the qubit declared under `id`, if any.
    pub fn slot(&self, id: &String) -> (r: Option<usize>)
        requires
            distinct(self@.names),
        ensures
            r matches Some(s) ==> slot_of(self@.names, id@) == Some(s as nat),
            r is None ==> slot_of(self@.names, id@) is None,
    {
        let ghost names = self@.names;
        let mut i: usize = 0;
        while i < self.qubits.len()
            invariant
                names == self@.names,
                names.len() == self.qubits@.len(),
                distinct(names),
                i <= names.len(),
                forall|k: int| 0 <= k < i ==> names[k] != id@,
            decreases self.qubits@.len() - i,
        {
            if self.qubits[i] == *id {
                proof {
                    assert(names[i as int] == id@);
                    let j = choose|j: int| 0 <= j < names.len() && names[j] == id@;
                    assert(j == i);
                }
                return Some(i);
            }
            i = i + 1;
        }
        None
    }

    /// Decides what `stmt` calls for.
    pub fn decide<E>(&self, stmt: &StatementNode<E>) -> (r: Action)
        requires
            distinct(self@.names),
        ensures
            r@ == decision(self@.names, *stmt),
            r matches Action::Create { slot } ==> slot == self@.names.len(),
    {
        match stmt {
            StatementNode::CreateStatement { identifier, complex_array } => {
                if self.slot(identifier).is_some() {
                    let mut line = String::from_str("Identifier ");
                    line.append(identifier.as_str());
                    line.append(" was already declared");
                    Action::Emit(line)
                } else if complex_array.values.len() != 2 {
                    let mut line = String::from_str("Invalid number of states for qubit ");
                    line.append(identifier.as_str());
                    line.append(": expected 2, got ");
                    line.append(write_decimal(complex_array.values.len()).as_str());
                    Action::Emit(line)
                } else {
                    Action::Create { slot: self.qubits.len() }
                }
            },
            StatementNode::ApplyStatement { identifier1, identifier2 } => {
                match self.slot(identifier1) {
                    None => Action::Emit(unresolved_symbol(identifier1)),
                    Some(slot) => match Gate::from_name(identifier2) {
                        None => {
                            let mut line = String::from_str("Cannot resolve gate '");
                            line.append(identifier2.as_str());
                            line.append("'");
                            Action::Emit(line)
                        },
                        Some(gate) => Action::Apply { slot, gate },
                    },
                }
            },
            StatementNode::MeasureStatement { identifier } => {
                match self.slot(identifier) {
                    None => Action::Emit(unresolved_symbol(identifier)),
                    Some(slot) => Action::Measure { slot },
                }
            },
            StatementNode::DisplayStatement { identifier } => {
                match self.slot(identifier) {
                    Some(slot) => Action::ShowQubit { slot },
                    None => match Gate::from_name(identifier) {
                        Some(gate) => Action::Emit(display_line(identifier, gate.render().as_str())),
                        None => Action::Emit(unresolved_symbol(identifier)),
                    },
                }
            },
        }
    }

    /// Finishes `stmt` with what came of its action: declares the new qubit
    /// or reports the statement's line.
    pub fn execute<E>(&mut self, stmt: &StatementNode<E>, event: Event)
        requires
            distinct(old(self)@.names),
        ensures
            distinct(final(self)@.names),
            ({
                let (names, line) = completion(old(self)@.names, *stmt, event);
                &&& final(self)@.names == names
                &&& line matches Some(l) ==> final(self)@.results == old(self)@.results.push(l)
                &&& line is None ==> final(self)@.results == old(self)@.results
            }),
    {
        let action = self.decide(stmt);
        match action {
            Action::Emit(line) => {
                self.report(line);
            },
            Action::Create { slot } => {
                let name = subject_of(stmt);
                match event {
                    Event::Created { nonzero: true } => {
                        self.declare(name);
                    },
                    _ => {
                        let mut line = String::from_str("Cannot create qubit ");
                        line.append(name.as_str());
                        line.append(": both amplitudes are zero");
                        self.report(line);
                    },
                }
            },
            Action::Apply { .. } => {},
            Action::Measure { .. } => {
                match event {
                    Event::Measured { outcome } => {
                        let mut line = String::from_str("Result of measurement: ");
                        line.append(write_decimal(outcome as usize).as_str());
                        self.report(line);
                    },
                    _ => {},
                }
            },
            Action::ShowQubit { .. } => {
                match event {
                    Event::Rendered { text } => {
                        let line = display_line(&subject_of(stmt), text.as_str());
                        self.report(line);
                    },
                    _ => {},
                }
            },
        }
    }

    /// The lines reported so far, in order.
    pub fn into_results(self) -> (r: Vec<String>)
        ensures
            r@.map_values(|s: String| s@) == self@.results,
    {
        self.results
    }

    fn report(&mut self, line: String)
        ensures
            final(self)@.names == old(self)@.names,
            final(self)@.results == old(self)@.results.push(line@),
    {
        self.results.push(line);
        proof {
            assert(final(self)@.results =~= old(self)@.results.push(line@));
            assert(final(self)@.names =~= old(self)@.names);
        }
    }

    fn declare(&mut self, name: String)
        requires
            distinct(old(self)@.names),
            slot_of(old(self)@.names, name@) is None,
        ensures
            distinct(final(self)@.names),
            final(self)@.names == old(self)@.names.push(name@),
            final(self)@.results == old(self)@.results,
    {
        proof {
            let names = self@.names;
            assert forall|i: int| 0 <= i < names.len() implies names[i] != name@ by {
                if names[i] == name@ {
                    assert(exists|k: int| 0 <= k < names.len() && names[k] == name@);
                }
            }
        }
        self.qubits.push(name);
        proof {
            assert(self@.names =~= old(self)@.names.push(name@));
            assert(self@.results =~= old(self)@.results);
        }
    }
}

/// The declared names and the reported lines after the first `n` statements
/// of `stmts`, statement `k` having met event `events[k]`.
pub open spec fn run<E>(stmts: Seq<StatementNode<E>>, events: Seq<Event>, n: nat) -> InterpreterModel
    decreases n,
{
    if n == 0 {
        InterpreterModel { names: Seq::empty(), results: Seq::empty() }
    } else {
        let before = run(stmts, events, (n - 1) as nat);
        let (names, line) = completion(before.names, stmts[n - 1], events[n - 1]);
        InterpreterModel {
            names,
            results: match line {
                Some(l) => before.results.push(l),
                None => before.results,
            },
        }
    }
}

/// A run depends on the events of the statements it has run only.
pub proof fn lemma_run_prefix<E>(stmts: Seq<StatementNode<E>>, e1: Seq<Event>, e2: Seq<Event>, n: nat)
    requires
        forall|k: int| 0 <= k < n ==> e1[k] == e2[k],
    ensures
        run(stmts, e1, n) == run(stmts, e2, n),
    decreases n,
{
    if n > 0 {
        lemma_run_prefix(stmts, e1, e2, (n - 1) as nat);
    }
}

/// Each statement reports at most one line, so `n` statements report at
/// most `n` lines; and no name is ever declared twice.
pub proof fn lemma_run_shape<E>(stmts: Seq<StatementNode<E>>, events: Seq<Event>, n: nat)
    ensures
        run(stmts, events, n).results.len() <= n,
        distinct(run(stmts, events, n).names),
    decreases n,
{
    if n > 0 {
        let m = (n - 1) as nat;
        lemma_run_shape(stmts, events, m);
        let names = run(stmts, events, m).names;
        let stmt = stmts[m as int];
        if decision(names, stmt) is Create {
            let id = subject(stmt);
            assert(slot_of(names, id) is None);
            assert forall|i: int| 0 <= i < names.len() implies names[i] != id by {
                if names[i] == id {
                    assert(exists|k: int| 0 <= k < names.len() && names[k] == id);
                }
            }
            let pushed = names.push(id);
            assert forall|i: int, j: int|
                0 <= i < pushed.len() && 0 <= j < pushed.len() && i != j implies pushed[i] != pushed[j] by {
                if i < names.len() && j < names.len() {
                    assert(names[i] != names[j]);
                }
            }
        }
    }
}

/// Runs a whole program with a fresh set of qubits. `perform` carries out
/// each action on the caller's qubits, kept in `store`, and says what came of
/// it. Every statement is run, in order, and the result holds the lines
/// they reported, whatever the events were.
pub fn interpret_program<E, S, F>(program: ProgramNode<E>, store: S, perform: F) -> (r: (Vec<String>, S)) where
    F: Fn(S, &StatementNode<E>, &Action) -> (S, Event),

    requires
        forall|s: S, st: &StatementNode<E>, a: &Action| perform.requires((s, st, a)),
    ensures
        exists|events: Seq<Event>|
            events.len() == program.statements@.len() && r.0@.map_values(|s: String| s@) == run(
                program.statements@,
                events,
                events.len(),
            ).results,
{
    let ghost stmts = program.statements@;
    let mut interp = Interpreter::new();
    let mut store = store;
    let ghost mut events: Seq<Event> = Seq::empty();
    let mut i: usize = 0;
    assert(interp@ == run(stmts, events, 0));
    while i < program.statements.len()
        invariant
            stmts == program.statements@,
            forall|s: S, st: &StatementNode<E>, a: &Action| perform.requires((s, st, a)),
            i <= stmts.len(),
            events.len() == i,
            distinct(interp@.names),
            interp@ == run(stmts, events, i as nat),
        decreases stmts.len() - i,
    {
        let stmt = &program.statements[i];
        let action = interp.decide(stmt);
        let (next, event) = perform(store, stmt, &action);
        store = next;
        let ghost before = events;
        proof {
            events = events.push(event);
            lemma_run_prefix(stmts, before, events, i as nat);
        }
        interp.execute(stmt, event);
        i = i + 1;
        proof {
            let m = run(stmts, events, i as nat);
            assert(interp@.names == m.names);
            assert(interp@.results =~= m.results);
        }
    }
    (interp.into_results(), store)
}

fn unresolved_symbol(id: &String) -> (r: String)
    ensures
        r@ == unresolved_symbol_text(id@),
{
    let mut line = String::from_str("Cannot resolve symbol '");
    line.append(id.as_str());
    line.append("'");
    line
}

fn display_line(id: &String, shown: &str) -> (r: String)
    ensures
        r@ == display_text(id@, shown@),
{
    let mut line = id.clone();
    line.append(": ");
    line.append(shown);
    line
}

fn subject_of<E>(stmt: &StatementNode<E>) -> (r: String)
    ensures
        r@ == subject(*stmt),
{
    match stmt {
        StatementNode::CreateStatement { identifier, .. } => identifier.clone(),
        StatementNode::ApplyStatement { identifier1, .. } => identifier1.clone(),
        StatementNode::MeasureStatement { identifier } => identifier.clone(),
        StatementNode::DisplayStatement { identifier } => identifier.clone(),
    }
}

} // verus!

use qubit_sim::gate::Gate;
use qubit_sim::interpreter::{interpret_program, Action, Event};
use qubit_sim::models::{
    infix_operator, prefix_operator, ComplexArrayNode, InfixOperator, NodeType, PrefixOperator,
    ProgramNode, StatementNode,
};

enum Expression {
    RealNumber { value: f64 },
    ImaginaryNumber { value: f64 },
    InfixExpression { op: String, left: Box<Expression>, right: Box<Expression> },
    PrefixExpression { op: String, right: Box<Expression> },
}

type State = [(f64, f64); 2];

fn create_real_number(value: f64) -> Expression {
    Expression::RealNumber { value }
}

fn create_imaginary_number(value: f64) -> Expression {
    Expression::ImaginaryNumber { value }
}

fn evaluate(e: &Expression) -> (f64, f64) {
    match e {
        Expression::RealNumber { value } => (*value, 0.0),
        Expression::ImaginaryNumber { value } => (0.0, *value),
        Expression::InfixExpression { op, left, right } => {
            let (a, b) = evaluate(left);
            let (c, d) = evaluate(right);
            match infix_operator(op) {
                InfixOperator::Add => (a + c, b + d),
                InfixOperator::Subtract => (a - c, b - d),
                InfixOperator::Multiply => (a * c - b * d, a * d + b * c),
                InfixOperator::Divide => {
                    let n = c * c + d * d;
                    ((a * c + b * d) / n, (b * c - a * d) / n)
                }
                InfixOperator::Unrecognized => (0.0, 0.0),
            }
        }
        Expression::PrefixExpression { op, right } => {
            let (a, b) = evaluate(right);
            match prefix_operator(op) {
                PrefixOperator::Negate => (-a, -b),
                PrefixOperator::Keep => (a, b),
            }
        }
    }
}

fn apply(gate: Gate, s: State) -> State {
    let m = gate.matrix_representation();
    let k = (0.5f64).sqrt().powi(m.scale() as i32);
    let mut out = [(0.0, 0.0); 2];
    for r in 0..2 {
        for c in 0..2 {
            let e = m.entry(r, c);
            let (x, y) = (e.real_part() as f64 * k, e.imaginary_part() as f64 * k);
            out[r].0 += x * s[c].0 - y * s[c].1;
            out[r].1 += x * s[c].1 + y * s[c].0;
        }
    }
    out
}

fn perform(
    mut qubits: Vec<State>,
    stmt: &StatementNode<Expression>,
    action: &Action,
) -> (Vec<State>, Event) {
    match action {
        Action::Emit(_) => (qubits, Event::Done),
        Action::Create { .. } => {
            let values = match stmt {
                StatementNode::CreateStatement { complex_array, .. } => &complex_array.values,
                _ => unreachable!(),
            };
            let a = evaluate(&values[0]);
            let b = evaluate(&values[1]);
            let n = (a.0 * a.0 + a.1 * a.1 + b.0 * b.0 + b.1 * b.1).sqrt();
            if n == 0.0 {
                return (qubits, Event::Created { nonzero: false });
            }
            qubits.push([(a.0 / n, a.1 / n), (b.0 / n, b.1 / n)]);
            (qubits, Event::Created { nonzero: true })
        }
        Action::Apply { slot, gate } => {
            qubits[*slot] = apply(*gate, qubits[*slot]);
            (qubits, Event::Done)
        }
        Action::Measure { slot } => {
            let outcome = if qubits[*slot][0] == (0.0, 0.0) { 1 } else { 0 };
            qubits[*slot] = if outcome == 0 { [(1.0, 0.0), (0.0, 0.0)] } else { [(0.0, 0.0), (1.0, 0.0)] };
            (qubits, Event::Measured { outcome })
        }
        Action::ShowQubit { slot } => {
            let s = qubits[*slot];
            let text = format!("[{}+{}i, {}+{}i]", s[0].0, s[0].1, s[1].0, s[1].1);
            (qubits, Event::Rendered { text })
        }
    }
}

fn run(program: ProgramNode<Expression>) -> (Vec<String>, Vec<State>) {
    interpret_program(program, Vec::new(), perform)
}

fn interpret(program: ProgramNode<Expression>) -> Vec<String> {
    run(program).0
}

fn program(statements: Vec<StatementNode<Expression>>) -> ProgramNode<Expression> {
    ProgramNode { node_type: NodeType::Program, statements }
}

fn create(id: &str, values: Vec<Expression>) -> StatementNode<Expression> {
    StatementNode::CreateStatement {
        identifier: id.to_string(),
        complex_array: ComplexArrayNode { node_type: NodeType::ComplexArray, values },
    }
}

fn apply_statement(qubit: &str, gate: &str) -> StatementNode<Expression> {
    StatementNode::ApplyStatement { identifier1: qubit.to_string(), identifier2: gate.to_string() }
}

fn measure(id: &str) -> StatementNode<Expression> {
    StatementNode::MeasureStatement { identifier: id.to_string() }
}

fn display(id: &str) -> StatementNode<Expression> {
    StatementNode::DisplayStatement { identifier: id.to_string() }
}

#[test]
fn test_create_qubit_wrong_states_count() {
    let results = interpret(program(vec![create(
        "q1",
        vec![create_real_number(1.0), create_real_number(0.0), create_real_number(0.0)],
    )]));
    assert_eq!(results.len(), 1);
    assert_eq!(
        results[0], "Invalid number of states for qubit q1: expected 2, got 3",
        "Expected error for wrong number of states"
    );
}

#[test]
fn test_create_qubit_empty_states() {
    let results = interpret(program(vec![create("q1", vec![])]));
    assert_eq!(results.len(), 1);
    assert_eq!(
        results[0], "Invalid number of states for qubit q1: expected 2, got 0",
        "Expected error for empty states"
    );
}

#[test]
fn test_create_qubit_success() {
    let results =
        interpret(program(vec![create("q1", vec![create_real_number(1.0), create_real_number(0.0)])]));
    assert!(results.is_empty(), "Expected no errors when creating a qubit");
}

#[test]
fn test_create_qubit_duplicate_identifier() {
    let results = interpret(program(vec![
        create("q1", vec![create_real_number(1.0), create_real_number(0.0)]),
        create("q1", vec![create_real_number(0.0), create_real_number(1.0)]),
    ]));
    assert_eq!(results.len(), 1);
    assert_eq!(results[0], "Identifier q1 was already declared", "Expected error for duplicate identifier");
}

#[test]
fn test_apply_gate_success() {
    let results = interpret(program(vec![
        create("q1", vec![create_real_number(1.0), create_real_number(0.0)]),
        apply_statement("q1", "pauliX"),
    ]));
    assert!(results.is_empty(), "Expected no errors when applying a gate");
}

#[test]
fn test_apply_gate_unknown_qubit() {
    let results = interpret(program(vec![apply_statement("q1", "pauliX")]));
    assert_eq!(results.len(), 1);
    assert_eq!(results[0], "Cannot resolve symbol 'q1'", "Expected error for unknown qubit");
}

#[test]
fn test_apply_gate_unknown_gate() {
    let results = interpret(program(vec![
        create("q1", vec![create_real_number(1.0), create_real_number(0.0)]),
        apply_statement("q1", "unknown_gate"),
    ]));
    assert_eq!(results.len(), 1);
    assert_eq!(results[0], "Cannot resolve gate 'unknown_gate'", "Expected error for unknown gate");
}

#[test]
fn test_measure_qubit_success() {
    let results = interpret(program(vec![
        create("q1", vec![create_real_number(1.0), create_real_number(0.0)]),
        measure("q1"),
    ]));
    assert_eq!(results.len(), 1);
    assert!(results[0].starts_with("Result of measurement:"));
}

#[test]
fn test_measure_qubit_unknown_identifier() {
    let results = interpret(program(vec![measure("q1")]));
    assert_eq!(results.len(), 1);
    assert_eq!(
        results[0], "Cannot resolve symbol 'q1'",
        "Expected error for unknown qubit in measurement"
    );
}

#[test]
fn test_display_qubit() {
    let results = interpret(program(vec![
        create("q1", vec![create_real_number(1.0), create_real_number(0.0)]),
        display("q1"),
    ]));
    assert_eq!(results.len(), 1);
    assert!(results[0].contains("q1:"));
}

#[test]
fn test_display_gate() {
    let results = interpret(program(vec![display("pauliX")]));
    assert_eq!(results.len(), 1);
    assert!(results[0].contains("pauliX:"));
}

#[test]
fn test_display_unknown_identifier() {
    let results = interpret(program(vec![display("unknown")]));
    assert_eq!(results.len(), 1);
    assert_eq!(
        results[0], "Cannot resolve symbol 'unknown'",
        "Expected error for unknown identifier in display"
    );
}

#[test]
fn test_complex_expression_creation() {
    let results = interpret(program(vec![create(
        "q1",
        vec![
            Expression::InfixExpression {
                op: "+".to_string(),
                left: Box::new(create_real_number(1.0)),
                right: Box::new(create_imaginary_number(1.0)),
            },
            Expression::InfixExpression {
                op: "-".to_string(),
                left: Box::new(create_real_number(0.0)),
                right: Box::new(create_imaginary_number(1.0)),
            },
        ],
    )]));
    assert!(results.is_empty(), "Expected no errors when creating qubit with complex expressions");
}

#[test]
fn create_then_pauli_x_is_silent_and_flips() {
    let (results, qubits) = run(program(vec![
        create("q1", vec![create_real_number(1.0), create_real_number(0.0)]),
        apply_statement("q1", "pauliX"),
    ]));
    assert!(results.is_empty());
    assert_eq!(qubits.len(), 1);
    assert_eq!(qubits[0], [(0.0, 0.0), (1.0, 0.0)]);
}

#[test]
fn duplicate_create_keeps_first_declaration() {
    let (results, qubits) = run(program(vec![
        create("q1", vec![create_real_number(1.0), create_real_number(0.0)]),
        create("q1", vec![create_real_number(0.0), create_real_number(1.0)]),
    ]));
    assert_eq!(results, vec!["Identifier q1 was already declared".to_string()]);
    assert_eq!(qubits.len(), 1);
    assert_eq!(qubits[0], [(1.0, 0.0), (0.0, 0.0)]);
}

#[test]
fn apply_without_create_reports_qubit() {
    let (results, qubits) = run(program(vec![apply_statement("q1", "pauliX")]));
    assert_eq!(results, vec!["Cannot resolve symbol 'q1'".to_string()]);
    assert!(qubits.is_empty());
}

#[test]
fn unknown_gate_leaves_qubit_alone() {
    let (results, qubits) = run(program(vec![
        create("q1", vec![create_real_number(1.0), create_real_number(0.0)]),
        apply_statement("q1", "unknownGate"),
    ]));
    assert_eq!(results, vec!["Cannot resolve gate 'unknownGate'".to_string()]);
    assert_eq!(qubits[0], [(1.0, 0.0), (0.0, 0.0)]);
}

#[test]
fn zero_amplitudes_are_rejected() {
    let (results, qubits) = run(program(vec![
        create("q1", vec![create_real_number(0.0), create_real_number(0.0)]),
        measure("q1"),
    ]));
    assert_eq!(
        results,
        vec![
            "Cannot create qubit q1: both amplitudes are zero".to_string(),
            "Cannot resolve symbol 'q1'".to_string(),
        ]
    );
    assert!(qubits.is_empty());
}

#[test]
fn every_statement_runs_after_errors() {
    let results = interpret(program(vec![
        measure("a"),
        create("q1", vec![create_real_number(0.0), create_real_number(1.0)]),
        apply_statement("q1", "nope"),
        measure("q1"),
        display("hadamard"),
    ]));
    assert_eq!(
        results,
        vec![
            "Cannot resolve symbol 'a'".to_string(),
            "Cannot resolve gate 'nope'".to_string(),
            "Result of measurement: 1".to_string(),
            "hadamard: 1/sqrt(2) * [[1, 1], [1, -1]]".to_string(),
        ]
    );
}

#[test]
fn display_prefers_qubit_over_gate() {
    let results = interpret(program(vec![
        create("pauliX", vec![create_real_number(1.0), create_real_number(0.0)]),
        display("pauliX"),
    ]));
    assert_eq!(results, vec!["pauliX: [1+0i, 0+0i]".to_string()]);
}

#[test]
fn display_gate_writes_matrix() {
    let results = interpret(program(vec![display("pauliY"), display("identity")]));
    assert_eq!(
        results,
        vec!["pauliY: [[0, -i], [i, 0]]".to_string(), "identity: [[1, 0], [0, 1]]".to_string()]
    );
}

#[test]
fn prefix_and_unknown_operators() {
    assert_eq!(prefix_operator(&"-".to_string()), PrefixOperator::Negate);
    assert_eq!(prefix_operator(&"+".to_string()), PrefixOperator::Keep);
    assert_eq!(infix_operator(&"/".to_string()), InfixOperator::Divide);
    assert_eq!(infix_operator(&"*".to_string()), InfixOperator::Multiply);
    assert_eq!(infix_operator(&"^".to_string()), InfixOperator::Unrecognized);
    let results = interpret(program(vec![create(
        "q1",
        vec![
            Expression::InfixExpression {
                op: "^".to_string(),
                left: Box::new(create_real_number(1.0)),
                right: Box::new(create_real_number(1.0)),
            },
            Expression::PrefixExpression { op: "-".to_string(), right: Box::new(create_real_number(0.0)) },
        ],
    )]));
    assert_eq!(results, vec!["Cannot create qubit q1: both amplitudes are zero".to_string()]);
}

use peroxide::ast::{
    Application, Assignment, Begin, Define, Formals, If, Lambda, Quote, Reference, SyntaxElement,
};
use peroxide::compile::{compile, CompileError};
use peroxide::environment::{Environment, Variable};
use peroxide::vm::Instruction;

fn quote(handle: usize) -> SyntaxElement {
    SyntaxElement::Quote(Quote { quoted: handle })
}

fn reference(name: &str) -> SyntaxElement {
    SyntaxElement::Reference(Reference { variable: name.to_string() })
}

fn define(name: &str, value: SyntaxElement) -> SyntaxElement {
    SyntaxElement::Define(Box::new(Define { variable: name.to_string(), value }))
}

fn assignment(name: &str, value: SyntaxElement) -> SyntaxElement {
    SyntaxElement::Assignment(Box::new(Assignment { variable: name.to_string(), value }))
}

fn lambda(formals: Vec<&str>, rest: Option<&str>, body: Vec<SyntaxElement>) -> SyntaxElement {
    SyntaxElement::Lambda(Box::new(Lambda {
        formals: Formals {
            values: formals.iter().map(|s| s.to_string()).collect(),
            rest: rest.map(|s| s.to_string()),
        },
        expressions: body,
    }))
}

fn apply(function: SyntaxElement, args: Vec<SyntaxElement>) -> SyntaxElement {
    SyntaxElement::Application(Box::new(Application { function, args }))
}

#[test]
fn quote_emits_single_constant() {
    let mut out = Vec::new();
    let mut env = Environment::new();
    let r = compile(&quote(7), &mut out, &mut env, 0, false, true);
    assert_eq!(r, Ok(1));
    assert_eq!(out, vec![Instruction::Constant(7)]);
}

#[test]
fn if_without_else_shape() {
    let mut out = Vec::new();
    let mut env = Environment::new();
    let tree = SyntaxElement::If(Box::new(If { cond: quote(0), t: quote(1), f: None }));
    let r = compile(&tree, &mut out, &mut env, 0, false, true);
    assert_eq!(r, Ok(3));
    assert_eq!(
        out,
        vec![Instruction::Constant(0), Instruction::JumpFalse(1), Instruction::Constant(1)]
    );
}

#[test]
fn if_with_else_shape() {
    let mut out = Vec::new();
    let mut env = Environment::new();
    let tree = SyntaxElement::If(Box::new(If { cond: quote(0), t: quote(1), f: Some(quote(2)) }));
    let r = compile(&tree, &mut out, &mut env, 0, false, true);
    assert_eq!(r, Ok(5));
    assert_eq!(
        out,
        vec![
            Instruction::Constant(0),
            Instruction::JumpFalse(2),
            Instruction::Constant(1),
            Instruction::Jump(1),
            Instruction::Constant(2),
        ]
    );
}

#[test]
fn begin_sequences_expressions() {
    let mut out = Vec::new();
    let mut env = Environment::new();
    let tree = SyntaxElement::Begin(Begin { expressions: vec![quote(1), quote(2)] });
    let r = compile(&tree, &mut out, &mut env, 0, false, true);
    assert_eq!(r, Ok(2));
    assert_eq!(out, vec![Instruction::Constant(1), Instruction::Constant(2)]);
}

#[test]
fn global_resolution_three_frames_deep() {
    let mut env = Environment::new();
    env.define(0, &"x".to_string(), true);
    let f1 = env.new_child(0, &Vec::new());
    let f2 = env.new_child(f1, &Vec::new());
    let f3 = env.new_child(f2, &Vec::new());
    let v = env.resolve(f3, &"x".to_string());
    assert_eq!(v, Some(Variable { altitude: 0, index: 0, initialized: true }));
    assert_eq!(env.depth(f3, 0), 3);
}

#[test]
fn shadowing_innermost_frame_wins() {
    let mut env = Environment::new();
    env.define(0, &"x".to_string(), true);
    let f1 = env.new_child(0, &vec!["x".to_string()]);
    let v = env.resolve(f1, &"x".to_string());
    assert_eq!(v, Some(Variable { altitude: 1, index: 0, initialized: true }));
    let g = env.resolve(0, &"x".to_string());
    assert_eq!(g, Some(Variable { altitude: 0, index: 0, initialized: true }));
}

#[test]
fn define_twice_allocates_one_slot() {
    let mut out = Vec::new();
    let mut env = Environment::new();
    let r1 = compile(&define("x", quote(5)), &mut out, &mut env, 0, false, true);
    assert_eq!(r1, Ok(2));
    assert_eq!(out, vec![Instruction::Constant(5), Instruction::ExtendFrame]);

    out.clear();
    let r2 = compile(&define("x", quote(6)), &mut out, &mut env, 0, false, true);
    assert_eq!(r2, Ok(2));
    assert_eq!(out, vec![Instruction::Constant(6), Instruction::GlobalArgumentSet { index: 0 }]);

    // a later definition takes the next slot: `x` used exactly one
    out.clear();
    compile(&define("y", quote(7)), &mut out, &mut env, 0, false, true).unwrap();
    let y = env.resolve(0, &"y".to_string()).unwrap();
    assert_eq!(y.index, 1);
}

#[test]
fn lambda_body_tail_propagation() {
    // In the body [f-call, f-call], the first call is non-tail, the last is a
    // tail call — whatever the position of the lambda form itself.
    let mut out = Vec::new();
    let mut env = Environment::new();
    env.define(0, &"f".to_string(), true);
    let tree = lambda(
        vec![],
        None,
        vec![apply(reference("f"), vec![]), apply(reference("f"), vec![])],
    );
    let r = compile(&tree, &mut out, &mut env, 0, false, true);
    assert_eq!(r, Ok(17));
    assert_eq!(
        out,
        vec![
            Instruction::CreateClosure(1),
            Instruction::Jump(15),
            Instruction::CheckArity { arity: 0, dotted: false },
            Instruction::ExtendEnv,
            // first body expression: a non-tail call
            Instruction::GlobalArgumentGet { index: 0 },
            Instruction::PushValue,
            Instruction::CreateFrame(0),
            Instruction::PopFunction,
            Instruction::PreserveEnv,
            Instruction::FunctionInvoke { tail: false },
            Instruction::RestoreEnv,
            // last body expression: a tail call, no preserve/restore
            Instruction::GlobalArgumentGet { index: 0 },
            Instruction::PushValue,
            Instruction::CreateFrame(0),
            Instruction::PopFunction,
            Instruction::FunctionInvoke { tail: true },
            Instruction::Return,
        ]
    );
}

#[test]
fn application_tail_versus_nontail() {
    let mut env = Environment::new();
    env.define(0, &"f".to_string(), true);

    let mut tail_out = Vec::new();
    let r1 = compile(
        &apply(reference("f"), vec![quote(1)]),
        &mut tail_out,
        &mut env,
        0,
        true,
        false,
    );
    assert_eq!(r1, Ok(7));
    assert_eq!(
        tail_out,
        vec![
            Instruction::GlobalArgumentGet { index: 0 },
            Instruction::PushValue,
            Instruction::Constant(1),
            Instruction::PushValue,
            Instruction::CreateFrame(1),
            Instruction::PopFunction,
            Instruction::FunctionInvoke { tail: true },
        ]
    );

    let mut plain_out = Vec::new();
    let r2 = compile(
        &apply(reference("f"), vec![quote(1)]),
        &mut plain_out,
        &mut env,
        0,
        false,
        false,
    );
    assert_eq!(r2, Ok(9));
    assert_eq!(
        plain_out,
        vec![
            Instruction::GlobalArgumentGet { index: 0 },
            Instruction::PushValue,
            Instruction::Constant(1),
            Instruction::PushValue,
            Instruction::CreateFrame(1),
            Instruction::PopFunction,
            Instruction::PreserveEnv,
            Instruction::FunctionInvoke { tail: false },
            Instruction::RestoreEnv,
        ]
    );
}

#[test]
fn forward_reference_uses_checked_get() {
    let mut env = Environment::new();
    // the host predeclares `f` for a forward reference: bound, not populated
    env.define(0, &"f".to_string(), false);
    let mut out = Vec::new();
    let r = compile(&reference("f"), &mut out, &mut env, 0, false, true);
    assert_eq!(r, Ok(1));
    assert_eq!(out, vec![Instruction::CheckedGlobalArgumentGet { index: 0 }]);

    // once its definition has executed, the plain variant is emitted
    env.define(0, &"f".to_string(), true);
    out.clear();
    let r2 = compile(&reference("f"), &mut out, &mut env, 0, false, true);
    assert_eq!(r2, Ok(1));
    assert_eq!(out, vec![Instruction::GlobalArgumentGet { index: 0 }]);
}

#[test]
fn set_unbound_variable_fails_without_output() {
    let mut out = Vec::new();
    let mut env = Environment::new();
    let r = compile(&assignment("y", quote(1)), &mut out, &mut env, 0, false, true);
    assert_eq!(r, Err(CompileError::UndefinedVariable("y".to_string())));
    assert_eq!(out.len(), 0);
}

#[test]
fn reference_unbound_variable_fails() {
    let mut out = Vec::new();
    let mut env = Environment::new();
    let r = compile(&reference("z"), &mut out, &mut env, 0, false, true);
    assert_eq!(r, Err(CompileError::UndefinedVariable("z".to_string())));
    assert_eq!(out.len(), 0);
}

#[test]
fn define_below_toplevel_fails_without_output() {
    let mut out = Vec::new();
    let mut env = Environment::new();
    let r = compile(&define("x", quote(1)), &mut out, &mut env, 0, false, false);
    assert_eq!(
        r,
        Err(CompileError::UnsupportedForm(
            "Non-top-level defines not yet supported.".to_string()
        ))
    );
    assert_eq!(out.len(), 0);
}

#[test]
fn variadic_lambda_packs_rest() {
    let mut out = Vec::new();
    let mut env = Environment::new();
    let tree = lambda(vec!["a"], Some("b"), vec![quote(1)]);
    let r = compile(&tree, &mut out, &mut env, 0, false, true);
    assert_eq!(r, Ok(7));
    assert_eq!(
        out,
        vec![
            Instruction::CreateClosure(1),
            Instruction::Jump(5),
            Instruction::CheckArity { arity: 1, dotted: true },
            Instruction::PackFrame(1),
            Instruction::ExtendEnv,
            Instruction::Constant(1),
            Instruction::Return,
        ]
    );
}

#[test]
fn lambda_formal_local_get() {
    let mut out = Vec::new();
    let mut env = Environment::new();
    let tree = lambda(vec!["x"], None, vec![reference("x")]);
    let r = compile(&tree, &mut out, &mut env, 0, false, true);
    assert_eq!(r, Ok(6));
    assert_eq!(
        out,
        vec![
            Instruction::CreateClosure(1),
            Instruction::Jump(4),
            Instruction::CheckArity { arity: 1, dotted: false },
            Instruction::ExtendEnv,
            Instruction::LocalArgumentGet { depth: 0, index: 0 },
            Instruction::Return,
        ]
    );
}

#[test]
fn nested_lambda_deep_set() {
    // assigning an outer lambda's formal from an inner body crosses one frame
    let mut out = Vec::new();
    let mut env = Environment::new();
    let inner = lambda(vec!["y"], None, vec![assignment("x", quote(1))]);
    let tree = lambda(vec!["x"], None, vec![inner]);
    let r = compile(&tree, &mut out, &mut env, 0, false, true);
    assert_eq!(r, Ok(12));
    assert_eq!(
        out,
        vec![
            Instruction::CreateClosure(1),
            Instruction::Jump(10),
            Instruction::CheckArity { arity: 1, dotted: false },
            Instruction::ExtendEnv,
            Instruction::CreateClosure(1),
            Instruction::Jump(5),
            Instruction::CheckArity { arity: 1, dotted: false },
            Instruction::ExtendEnv,
            Instruction::Constant(1),
            Instruction::DeepArgumentSet { depth: 1, index: 0 },
            Instruction::Return,
            Instruction::Return,
        ]
    );
}

#[test]
fn failed_branch_leaves_partial_output() {
    // an error inside a branch aborts compilation; the buffer keeps what was
    // emitted before it (the condition and the jump placeholder)
    let mut out = Vec::new();
    let mut env = Environment::new();
    let tree = SyntaxElement::If(Box::new(If { cond: quote(0), t: reference("z"), f: None }));
    let r = compile(&tree, &mut out, &mut env, 0, false, true);
    assert_eq!(r, Err(CompileError::UndefinedVariable("z".to_string())));
    assert_eq!(out, vec![Instruction::Constant(0), Instruction::NoOp]);
}

#[test]
fn failed_define_value_leaves_binding() {
    // a Define registers its binding before the value compiles; a failing
    // value leaves the slot in place (never addressed: the output is thrown
    // away), which later compiles observe as a bound name
    let mut out = Vec::new();
    let mut env = Environment::new();
    let r = compile(&define("x", reference("z")), &mut out, &mut env, 0, false, true);
    assert_eq!(r, Err(CompileError::UndefinedVariable("z".to_string())));
    let x = env.resolve(0, &"x".to_string());
    assert_eq!(x, Some(Variable { altitude: 0, index: 0, initialized: true }));
}

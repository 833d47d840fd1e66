//! Proved laws of the compiler: the shape of the output for each control
//! form, the tail-position discipline, and the idempotence of top-level
//! redefinition. Each law is stated over the compiler's own specification
//! functions, so it holds of the executable compiler through `compile`'s
//! contract.

use vstd::prelude::*;

use crate::ast::{Application, Assignment, Define, Lambda, Quote, Reference, SyntaxElement};
use crate::compile::{
    application_spec, assignment_spec, compile_args_spec, compile_seq_spec, compile_spec,
    define_spec, formals_model, get_instr, lambda_spec, CompRes,
};
use crate::environment::{env_define, env_wf, lemma_lookup_props, resolve_in, BindingModel,
    FrameModel};
use crate::vm::Instruction;

verus! {

/// `b` keeps every frame of `a` unchanged and may only append new ones.
pub open spec fn env_extends(a: Seq<FrameModel>, b: Seq<FrameModel>) -> bool {
    &&& b.len() >= a.len()
    &&& forall|i: int| 0 <= i < a.len() ==> #[trigger] b[i] == a[i]
}

/// Compiling a quotation yields exactly one constant-load instruction, and it
/// carries the quoted handle; the environment is untouched. Holds for every
/// handle, environment and flag combination.
pub proof fn lemma_quote_single_constant(
    q: Quote,
    env: Seq<FrameModel>,
    frame: int,
    tail: bool,
    toplevel: bool,
)
    ensures
        compile_spec(SyntaxElement::Quote(q), env, frame, tail, toplevel).out
            == seq![Instruction::Constant(q.quoted)],
        compile_spec(SyntaxElement::Quote(q), env, frame, tail, toplevel).err is None,
        compile_spec(SyntaxElement::Quote(q), env, frame, tail, toplevel).env == env,
{
}

/// A conditional without an alternative emits the condition, one false-taken
/// jump, then the consequent: the jump's offset spans exactly the consequent,
/// and the total count is the condition's plus one plus the consequent's.
pub proof fn lemma_if_no_else_shape(i: crate::ast::If, env: Seq<FrameModel>, frame: int,
    tail: bool)
    requires
        i.f is None,
    ensures
        ({
            let c = compile_spec(i.cond, env, frame, false, false);
            let t = compile_spec(i.t, c.env, frame, tail, false);
            c.err is None && t.err is None ==> {
                let res = crate::compile::if_spec(i, env, frame, tail);
                &&& res.err is None
                &&& res.out == c.out + seq![Instruction::JumpFalse(t.out.len() as usize)] + t.out
                &&& res.out.len() == c.out.len() + 1 + t.out.len()
                &&& res.out[c.out.len() as int] == Instruction::JumpFalse(t.out.len() as usize)
            }
        }),
{
}

/// A conditional with an alternative emits condition, false-taken jump,
/// consequent, an unconditional jump, then the alternative: the conditional
/// jump's offset equals the consequent's size plus one (it also clears the
/// jump that ends the consequent), and that jump's offset equals the
/// alternative's size.
pub proof fn lemma_if_with_else_shape(i: crate::ast::If, env: Seq<FrameModel>, frame: int,
    tail: bool)
    requires
        i.f is Some,
    ensures
        ({
            let c = compile_spec(i.cond, env, frame, false, false);
            let t = compile_spec(i.t, c.env, frame, tail, false);
            let f = compile_spec(i.f->Some_0, t.env, frame, tail, false);
            c.err is None && t.err is None && f.err is None ==> {
                let res = crate::compile::if_spec(i, env, frame, tail);
                &&& res.err is None
                &&& res.out == c.out + seq![Instruction::JumpFalse((t.out.len() + 1) as usize)]
                    + t.out + seq![Instruction::Jump(f.out.len() as usize)] + f.out
                &&& res.out[c.out.len() as int] == Instruction::JumpFalse(
                    (t.out.len() + 1) as usize,
                )
                &&& res.out[c.out.len() + 1 + t.out.len() as int] == Instruction::Jump(
                    f.out.len() as usize,
                )
            }
        }),
{
}

/// A call in tail position ends in the invocation alone; the same call out of
/// tail position wraps the invocation in exactly one environment preserve
/// immediately before it and one restore immediately after it. Everything
/// before that — function, arguments, pushes, frame creation, function pop —
/// is identical in the two compilations.
pub proof fn lemma_application_tail_shape(a: Application, env: Seq<FrameModel>, frame: int)
    ensures
        ({
            let f = compile_spec(a.function, env, frame, false, false);
            let args = compile_args_spec(a.args, 0, f.env, frame);
            f.err is None && args.err is None ==> {
                let p = f.out + seq![Instruction::PushValue] + args.out + seq![
                    Instruction::CreateFrame(a.args.len()),
                    Instruction::PopFunction,
                ];
                &&& application_spec(a, env, frame, true).out == p + seq![
                    Instruction::FunctionInvoke { tail: true },
                ]
                &&& application_spec(a, env, frame, false).out == p + seq![
                    Instruction::PreserveEnv,
                    Instruction::FunctionInvoke { tail: false },
                    Instruction::RestoreEnv,
                ]
            }
        }),
{
    let f = compile_spec(a.function, env, frame, false, false);
    let args = compile_args_spec(a.args, 0, f.env, frame);
    if f.err is None && args.err is None {
        let p = f.out + seq![Instruction::PushValue] + args.out + seq![
            Instruction::CreateFrame(a.args.len()),
            Instruction::PopFunction,
        ];
        assert(application_spec(a, env, frame, true).out =~= p + seq![
            Instruction::FunctionInvoke { tail: true },
        ]);
        assert(application_spec(a, env, frame, false).out =~= p + seq![
            Instruction::PreserveEnv,
            Instruction::FunctionInvoke { tail: false },
            Instruction::RestoreEnv,
        ]);
    }
}

/// A lambda compiles the same way whatever tail and top-level status the
/// lambda form itself is compiled at.
pub proof fn lemma_lambda_ignores_tail(
    l: Box<Lambda>,
    env: Seq<FrameModel>,
    frame: int,
    tail1: bool,
    toplevel1: bool,
    tail2: bool,
    toplevel2: bool,
)
    ensures
        compile_spec(SyntaxElement::Lambda(l), env, frame, tail1, toplevel1) == compile_spec(
            SyntaxElement::Lambda(l),
            env,
            frame,
            tail2,
            toplevel2,
        ),
{
}

/// A lambda's body compiles in a fresh child frame with the body's last
/// expression in tail position; on success the output is the closure header,
/// a jump spanning the inline body, the arity check (a variadic lambda packs
/// its excess arguments), the environment extension, the body, and a return.
pub proof fn lemma_lambda_shape(l: Lambda, env: Seq<FrameModel>, frame: int)
    ensures
        ({
            let child = FrameModel {
                parent: frame,
                altitude: env[frame].altitude + 1,
                bindings: formals_model(l.formals),
            };
            let body = compile_seq_spec(l.expressions, 0, env.push(child), env.len() as int, true);
            let arity = l.formals.values.len();
            let dotted = l.formals.rest is Some;
            body.err is None ==> lambda_spec(l, env, frame).out == seq![
                Instruction::CreateClosure(1),
                Instruction::Jump((body.out.len() + if dotted { 4int } else { 3int }) as usize),
                Instruction::CheckArity { arity, dotted },
            ] + (if dotted {
                seq![Instruction::PackFrame(arity)]
            } else {
                Seq::<Instruction>::empty()
            }) + seq![Instruction::ExtendEnv] + body.out + seq![Instruction::Return]
        }),
{
}

/// In a two-expression body sequence, the first expression compiles out of
/// tail position and the second at the ambient status — the status a lambda
/// body receives is tail, whatever the lambda form's own position.
pub proof fn lemma_seq_two_tail(
    es: Vec<SyntaxElement>,
    env: Seq<FrameModel>,
    frame: int,
    tail: bool,
)
    requires
        es@.len() == 2,
    ensures
        ({
            let a = compile_spec(es[0], env, frame, false, false);
            let b = compile_spec(es[1], a.env, frame, tail, false);
            a.err is None ==> compile_seq_spec(es, 0, env, frame, tail) == (CompRes {
                out: a.out + b.out,
                env: b.env,
                err: b.err,
            })
        }),
{
    reveal_with_fuel(compile_seq_spec, 3);
}

/// A reference to a bound variable compiles to exactly one read instruction,
/// and it is the checked variant exactly when the binding is not yet
/// initialized — the forward-referenced-global case; once the binding is
/// initialized the plain variant is emitted.
pub proof fn lemma_reference_checked(
    rf: Reference,
    env: Seq<FrameModel>,
    frame: int,
    tail: bool,
    toplevel: bool,
)
    requires
        resolve_in(env, frame, rf.variable@) is Some,
    ensures
        ({
            let v = resolve_in(env, frame, rf.variable@)->Some_0;
            let res = compile_spec(SyntaxElement::Reference(rf), env, frame, tail, toplevel);
            &&& res.err is None
            &&& res.out == seq![get_instr(env[frame].altitude, v)]
            &&& (v.altitude == 0 && v.initialized ==> res.out[0]
                == Instruction::GlobalArgumentGet { index: v.index })
            &&& (v.altitude == 0 && !v.initialized ==> res.out[0]
                == Instruction::CheckedGlobalArgumentGet { index: v.index })
        }),
{
}

/// Away from top level, compilation never touches the bindings of existing
/// frames: no definition is possible there, so the arena can only grow by
/// fresh frames for lambda bodies.
pub proof fn lemma_nontop_env_extends(
    tree: SyntaxElement,
    env: Seq<FrameModel>,
    frame: int,
    tail: bool,
)
    ensures
        env_extends(env, compile_spec(tree, env, frame, tail, false).env),
    decreases tree, 2int,
{
    match tree {
        SyntaxElement::Quote(_) => {}
        SyntaxElement::If(i) => {
            let c = compile_spec(i.cond, env, frame, false, false);
            lemma_nontop_env_extends(i.cond, env, frame, false);
            if c.err is None {
                let t = compile_spec(i.t, c.env, frame, tail, false);
                lemma_nontop_env_extends(i.t, c.env, frame, tail);
                if t.err is None {
                    match i.f {
                        None => {}
                        Some(fe) => {
                            lemma_nontop_env_extends(fe, t.env, frame, tail);
                        }
                    }
                }
            }
        }
        SyntaxElement::Begin(b) => {
            lemma_nontop_seq_extends(b.expressions, 0, env, frame, tail);
        }
        SyntaxElement::Assignment(s) => {
            if resolve_in(env, frame, s.variable@) is Some {
                lemma_nontop_env_extends(s.value, env, frame, false);
            }
        }
        SyntaxElement::Reference(_) => {}
        SyntaxElement::Lambda(l) => {
            let child = FrameModel {
                parent: frame,
                altitude: env[frame].altitude + 1,
                bindings: formals_model(l.formals),
            };
            lemma_nontop_seq_extends(l.expressions, 0, env.push(child), env.len() as int, true);
        }
        SyntaxElement::Define(_) => {}
        SyntaxElement::Application(a) => {
            let f = compile_spec(a.function, env, frame, false, false);
            lemma_nontop_env_extends(a.function, env, frame, false);
            if f.err is None {
                lemma_nontop_args_extends(a.args, 0, f.env, frame);
            }
        }
    }
}

/// As `lemma_nontop_env_extends`, for a body sequence from position `i` on.
pub proof fn lemma_nontop_seq_extends(
    es: Vec<SyntaxElement>,
    i: int,
    env: Seq<FrameModel>,
    frame: int,
    tail: bool,
)
    ensures
        env_extends(env, compile_seq_spec(es, i, env, frame, tail).env),
    decreases es, es.len() - i,
{
    if 0 <= i < es.len() {
        if i == es.len() - 1 {
            lemma_nontop_env_extends(es[i], env, frame, tail);
        } else {
            let c = compile_spec(es[i], env, frame, false, false);
            lemma_nontop_env_extends(es[i], env, frame, false);
            if c.err is None {
                lemma_nontop_seq_extends(es, i + 1, c.env, frame, tail);
            }
        }
    }
}

/// As `lemma_nontop_env_extends`, for an argument list from position `i` on.
pub proof fn lemma_nontop_args_extends(
    args: Vec<SyntaxElement>,
    i: int,
    env: Seq<FrameModel>,
    frame: int,
)
    ensures
        env_extends(env, compile_args_spec(args, i, env, frame).env),
    decreases args, args.len() - i,
{
    if 0 <= i < args.len() {
        let c = compile_spec(args[i], env, frame, false, false);
        lemma_nontop_env_extends(args[i], env, frame, false);
        if c.err is None {
            lemma_nontop_args_extends(args, i + 1, c.env, frame);
        }
    }
}

/// Top-level redefinition is idempotent on slot allocation: a first `Define`
/// of a fresh name allocates exactly one slot in the defining frame; a second
/// `Define` of the same name then behaves exactly as an assignment — it
/// resolves to the same slot, allocates nothing, and leaves the frame's
/// bindings where the first compile put them.
pub proof fn lemma_define_idempotent(d1: Define, d2: Define, env: Seq<FrameModel>, frame: int)
    requires
        env_wf(env),
        0 <= frame < env.len(),
        d2.variable@ == d1.variable@,
        resolve_in(env, frame, d1.variable@) is None,
        define_spec(d1, env, frame, true).err is None,
    ensures
        ({
            let env1 = define_spec(d1, env, frame, true).env;
            let second = define_spec(d2, env1, frame, true);
            &&& env1[frame].bindings.len() == env[frame].bindings.len() + 1
            &&& env1[frame].bindings[env[frame].bindings.len() as int] == (BindingModel {
                name: d1.variable@,
                initialized: true,
            })
            &&& resolve_in(env1, frame, d2.variable@) is Some
            &&& second == assignment_spec(
                Assignment { variable: d2.variable, value: d2.value },
                env1,
                frame,
            )
            &&& (second.err is None ==> second.env[frame].bindings == env1[frame].bindings)
        }),
{
    let name = d1.variable@;
    let defined = env_define(env, frame, name, true).0;
    lemma_lookup_props(env[frame].bindings, name);
    let val = compile_spec(d1.value, defined, frame, false, false);
    lemma_nontop_env_extends(d1.value, defined, frame, false);
    let env1 = define_spec(d1, env, frame, true).env;
    assert(env1[frame] == defined[frame]);
    assert(env1[frame].bindings == env[frame].bindings.push(
        BindingModel { name, initialized: true },
    ));
    crate::environment::lemma_lookup_push_fresh(env[frame].bindings, name, true);
    let second = define_spec(d2, env1, frame, true);
    if second.err is None {
        lemma_nontop_env_extends(d2.value, env1, frame, false);
    }
}

} // verus!

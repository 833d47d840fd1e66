//! The compiler: a recursive tree-to-bytecode translator. It threads a "tail
//! position" flag and a "top level" flag through the traversal, resolves every
//! name through the environment, and appends instructions to a single growable
//! buffer, back-patching relative jumps once the spanned length is known.
//!
//! `compile_spec` is the mathematical account of the translation: it gives,
//! for every tree, the exact instruction sequence appended (also on failure,
//! where the buffer keeps what was emitted before the error), the exact final
//! state of the frame arena, and the exact error. The executable `compile` is
//! proved to return precisely that.

use vstd::prelude::*;

use crate::ast::{Application, Assignment, Define, Formals, If, Lambda, SyntaxElement, wf_tree,
    wf_trees};
use crate::environment::{
    BindingModel, Environment, FrameModel, Variable, env_define, env_wf, names_model, resolve_in,
};
use crate::vm::Instruction;

verus! {

/// Why a compilation failed.
#[derive(Debug, PartialEq, Eq)]
pub enum CompileError {
    /// A `Reference`, `Assignment` or re-`Define` target that no frame in the
    /// chain binds; carries the variable's name.
    UndefinedVariable(String),
    /// A structurally valid but disallowed construct (a non-top-level
    /// `Define`); carries a human-readable reason.
    UnsupportedForm(String),
}

/// The model of a compilation failure.
pub ghost enum ErrSpec {
    UndefinedVariable(Seq<char>),
    UnsupportedForm(Seq<char>),
}

/// What one compilation step produces: the instructions appended (on failure,
/// those appended before the error), the frame arena afterwards, and the
/// error if any.
pub ghost struct CompRes {
    pub out: Seq<Instruction>,
    pub env: Seq<FrameModel>,
    pub err: Option<ErrSpec>,
}

/// Whether the returned error carries the modelled variant and text.
pub open spec fn errs_match(r: Result<usize, CompileError>, e: ErrSpec) -> bool {
    match e {
        ErrSpec::UndefinedVariable(n) => r matches Err(CompileError::UndefinedVariable(s))
            && s@ == n,
        ErrSpec::UnsupportedForm(m) => r matches Err(CompileError::UnsupportedForm(s)) && s@ == m,
    }
}

/// The read instruction for a resolved variable, seen from a frame of
/// altitude `cur_alt`: global or local addressing by altitude, the checked
/// variant when the binding is a not-yet-populated forward reference.
pub open spec fn get_instr(cur_alt: int, v: Variable) -> Instruction {
    if v.altitude == 0 {
        if v.initialized {
            Instruction::GlobalArgumentGet { index: v.index }
        } else {
            Instruction::CheckedGlobalArgumentGet { index: v.index }
        }
    } else {
        let depth = (cur_alt - v.altitude) as usize;
        if v.initialized {
            Instruction::LocalArgumentGet { depth, index: v.index }
        } else {
            Instruction::CheckedLocalArgumentGet { depth, index: v.index }
        }
    }
}

/// The write instruction for a resolved variable, seen from a frame of
/// altitude `cur_alt`.
pub open spec fn set_instr(cur_alt: int, v: Variable) -> Instruction {
    if v.altitude == 0 {
        Instruction::GlobalArgumentSet { index: v.index }
    } else {
        Instruction::DeepArgumentSet { depth: (cur_alt - v.altitude) as usize, index: v.index }
    }
}

/// The slots of a lambda's frame: the fixed formals in declaration order,
/// then the rest name of a variadic lambda; all initialized at frame entry.
pub open spec fn formals_model(f: Formals) -> Seq<BindingModel> {
    match f.rest {
        None => names_model(f.values@),
        Some(r) => names_model(f.values@).push(BindingModel { name: r@, initialized: true }),
    }
}

/// The reason reported for a `Define` away from top level.
pub open spec fn nontop_define_reason() -> Seq<char> {
    "Non-top-level defines not yet supported."@
}

/// The translation of one tree. `frame` is the frame the tree is compiled in;
/// `tail` says the tree sits in tail position; `toplevel` says it is an
/// outermost program form (the only position where `Define` is legal).
pub open spec fn compile_spec(
    tree: SyntaxElement,
    env: Seq<FrameModel>,
    frame: int,
    tail: bool,
    toplevel: bool,
) -> CompRes
    decreases tree, 2int,
{
    match tree {
        SyntaxElement::Quote(q) => CompRes {
            out: seq![Instruction::Constant(q.quoted)],
            env,
            err: None,
        },
        SyntaxElement::If(i) => if_spec(*i, env, frame, tail),
        SyntaxElement::Begin(b) => compile_seq_spec(b.expressions, 0, env, frame, tail),
        SyntaxElement::Assignment(s) => assignment_spec(*s, env, frame),
        SyntaxElement::Reference(r) => match resolve_in(env, frame, r.variable@) {
            Some(v) => CompRes {
                out: seq![get_instr(env[frame].altitude, v)],
                env,
                err: None,
            },
            None => CompRes {
                out: Seq::empty(),
                env,
                err: Some(ErrSpec::UndefinedVariable(r.variable@)),
            },
        },
        SyntaxElement::Lambda(l) => lambda_spec(*l, env, frame),
        SyntaxElement::Define(d) => define_spec(*d, env, frame, toplevel),
        SyntaxElement::Application(a) => application_spec(*a, env, frame, tail),
    }
}

/// The translation of a conditional: condition, a false-taken jump over the
/// consequent (and, with an alternative, over the jump that ends it), the
/// branches at the ambient tail status.
pub open spec fn if_spec(i: If, env: Seq<FrameModel>, frame: int, tail: bool) -> CompRes
    decreases i, 1int,
{
    let c = compile_spec(i.cond, env, frame, false, false);
    if c.err is Some {
        c
    } else {
        let t = compile_spec(i.t, c.env, frame, tail, false);
        if t.err is Some {
            CompRes { out: c.out + seq![Instruction::NoOp] + t.out, env: t.env, err: t.err }
        } else {
            match i.f {
                None => CompRes {
                    out: c.out + seq![Instruction::JumpFalse(t.out.len() as usize)] + t.out,
                    env: t.env,
                    err: None,
                },
                Some(fe) => {
                    let f = compile_spec(fe, t.env, frame, tail, false);
                    if f.err is Some {
                        CompRes {
                            out: c.out + seq![Instruction::NoOp] + t.out + seq![Instruction::NoOp]
                                + f.out,
                            env: f.env,
                            err: f.err,
                        }
                    } else {
                        CompRes {
                            out: c.out + seq![Instruction::JumpFalse((t.out.len() + 1) as usize)]
                                + t.out + seq![Instruction::Jump(f.out.len() as usize)] + f.out,
                            env: f.env,
                            err: None,
                        }
                    }
                }
            }
        }
    }
}

/// The translation of an assignment: the target must already be bound; the
/// value compiles out of tail position, then one write instruction.
pub open spec fn assignment_spec(s: Assignment, env: Seq<FrameModel>, frame: int) -> CompRes
    decreases s, 1int,
{
    match resolve_in(env, frame, s.variable@) {
        Some(v) => {
            let val = compile_spec(s.value, env, frame, false, false);
            if val.err is Some {
                val
            } else {
                CompRes {
                    out: val.out + seq![set_instr(env[frame].altitude, v)],
                    env: val.env,
                    err: None,
                }
            }
        }
        None => CompRes {
            out: Seq::empty(),
            env,
            err: Some(ErrSpec::UndefinedVariable(s.variable@)),
        },
    }
}

/// The translation of a lambda: closure creation, a jump over the inline
/// body, the arity check (packing excess arguments when variadic), an
/// environment extension, the body in a fresh child frame — its last
/// expression in tail position whatever the ambient status — and a return.
pub open spec fn lambda_spec(l: Lambda, env: Seq<FrameModel>, frame: int) -> CompRes
    decreases l, 1int,
{
    let arity = l.formals.values.len();
    let dotted = l.formals.rest is Some;
    let pack: Seq<Instruction> = if dotted {
        seq![Instruction::PackFrame(arity)]
    } else {
        Seq::empty()
    };
    let child = FrameModel {
        parent: frame,
        altitude: env[frame].altitude + 1,
        bindings: formals_model(l.formals),
    };
    let body = compile_seq_spec(l.expressions, 0, env.push(child), env.len() as int, true);
    if body.err is Some {
        CompRes {
            out: seq![
                Instruction::CreateClosure(1),
                Instruction::NoOp,
                Instruction::CheckArity { arity, dotted },
            ] + pack + seq![Instruction::ExtendEnv] + body.out,
            env: body.env,
            err: body.err,
        }
    } else {
        let skip = (body.out.len() + if dotted { 4int } else { 3int }) as usize;
        CompRes {
            out: seq![
                Instruction::CreateClosure(1),
                Instruction::Jump(skip),
                Instruction::CheckArity { arity, dotted },
            ] + pack + seq![Instruction::ExtendEnv] + body.out + seq![Instruction::Return],
            env: body.env,
            err: None,
        }
    }
}

/// The translation of a definition: legal only at top level. A name already
/// bound in the chain behaves as an assignment (the slot is reused); a new
/// name is registered in `frame` before its value compiles, and the emitted
/// frame extension stores the value into the new slot. A failing value leaves
/// the fresh binding in place (its slot is then never addressed, since the
/// output is discarded).
pub open spec fn define_spec(d: Define, env: Seq<FrameModel>, frame: int, toplevel: bool)
    -> CompRes
    decreases d, 1int,
{
    if !toplevel {
        CompRes {
            out: Seq::empty(),
            env,
            err: Some(ErrSpec::UnsupportedForm(nontop_define_reason())),
        }
    } else {
        match resolve_in(env, frame, d.variable@) {
            Some(v) => {
                let val = compile_spec(d.value, env, frame, false, false);
                if val.err is Some {
                    val
                } else {
                    CompRes {
                        out: val.out + seq![set_instr(env[frame].altitude, v)],
                        env: val.env,
                        err: None,
                    }
                }
            }
            None => {
                let env1 = env_define(env, frame, d.variable@, true).0;
                let val = compile_spec(d.value, env1, frame, false, false);
                if val.err is Some {
                    val
                } else {
                    CompRes {
                        out: val.out + seq![Instruction::ExtendFrame],
                        env: val.env,
                        err: None,
                    }
                }
            }
        }
    }
}

/// The translation of a call: function then arguments, each out of tail
/// position and each followed by a push; then frame creation, function pop,
/// and the invocation — wrapped in an environment preserve/restore pair
/// exactly when the call is not in tail position.
pub open spec fn application_spec(a: Application, env: Seq<FrameModel>, frame: int, tail: bool)
    -> CompRes
    decreases a, 1int,
{
    let f = compile_spec(a.function, env, frame, false, false);
    if f.err is Some {
        f
    } else {
        let args = compile_args_spec(a.args, 0, f.env, frame);
        if args.err is Some {
            CompRes {
                out: f.out + seq![Instruction::PushValue] + args.out,
                env: args.env,
                err: args.err,
            }
        } else {
            let call: Seq<Instruction> = if tail {
                seq![
                    Instruction::CreateFrame(a.args.len()),
                    Instruction::PopFunction,
                    Instruction::FunctionInvoke { tail: true },
                ]
            } else {
                seq![
                    Instruction::CreateFrame(a.args.len()),
                    Instruction::PopFunction,
                    Instruction::PreserveEnv,
                    Instruction::FunctionInvoke { tail: false },
                    Instruction::RestoreEnv,
                ]
            };
            CompRes {
                out: f.out + seq![Instruction::PushValue] + args.out + call,
                env: args.env,
                err: None,
            }
        }
    }
}

/// The translation of a body sequence: every expression but the last compiles
/// out of tail position; the last takes the ambient tail status. Elements are
/// never at top level.
pub open spec fn compile_seq_spec(
    es: Vec<SyntaxElement>,
    i: int,
    env: Seq<FrameModel>,
    frame: int,
    tail: bool,
) -> CompRes
    decreases es, es.len() - i,
{
    if 0 <= i < es.len() {
        if i == es.len() - 1 {
            compile_spec(es[i], env, frame, tail, false)
        } else {
            let c = compile_spec(es[i], env, frame, false, false);
            if c.err is Some {
                c
            } else {
                let rest = compile_seq_spec(es, i + 1, c.env, frame, tail);
                CompRes { out: c.out + rest.out, env: rest.env, err: rest.err }
            }
        }
    } else {
        CompRes { out: Seq::empty(), env, err: None }
    }
}

/// The translation of an application's arguments from position `i` on: each
/// compiles out of tail position and is followed by one push.
pub open spec fn compile_args_spec(
    args: Vec<SyntaxElement>,
    i: int,
    env: Seq<FrameModel>,
    frame: int,
) -> CompRes
    decreases args, args.len() - i,
{
    if 0 <= i < args.len() {
        let c = compile_spec(args[i], env, frame, false, false);
        if c.err is Some {
            c
        } else {
            let rest = compile_args_spec(args, i + 1, c.env, frame);
            CompRes {
                out: c.out + seq![Instruction::PushValue] + rest.out,
                env: rest.env,
                err: rest.err,
            }
        }
    } else {
        CompRes { out: Seq::empty(), env, err: None }
    }
}

/// Compilation never reshapes existing frames: it may add frames and may add
/// or update bindings, but every frame keeps its parent and altitude.
pub open spec fn frames_stable(a: Seq<FrameModel>, b: Seq<FrameModel>) -> bool {
    &&& b.len() >= a.len()
    &&& forall|i: int| #![trigger b[i]]
        0 <= i < a.len() ==> b[i].parent == a[i].parent && b[i].altitude == a[i].altitude
}

/// The contract every compilation step meets: the buffer grows by exactly the
/// modelled output, the arena becomes exactly the modelled arena (staying
/// well-formed, frames stable), and the result is the modelled count or error.
pub open spec fn emits(
    res: CompRes,
    old_to: Seq<Instruction>,
    old_env: Seq<FrameModel>,
    new_to: Seq<Instruction>,
    new_env: Seq<FrameModel>,
    r: Result<usize, CompileError>,
) -> bool {
    &&& new_to == old_to + res.out
    &&& new_env == res.env
    &&& match res.err {
        None => r matches Ok(n) && n == res.out.len(),
        Some(e) => errs_match(r, e),
    }
    &&& env_wf(new_env)
    &&& frames_stable(old_env, new_env)
}

/// Compiles `tree` into `to`, resolving names from `frame` in `env`. Returns
/// how many instructions were appended, or the first error; on an error the
/// buffer keeps what was appended before it, and is not a valid program.
#[verifier::rlimit(50)]
pub fn compile(
    tree: &SyntaxElement,
    to: &mut Vec<Instruction>,
    env: &mut Environment,
    frame: usize,
    tail: bool,
    toplevel: bool,
) -> (r: Result<usize, CompileError>)
    requires
        env_wf(old(env)@),
        frame < old(env)@.len(),
        wf_tree(*tree),
        !(tail && toplevel),
    ensures
        emits(
            compile_spec(*tree, old(env)@, frame as int, tail, toplevel),
            old(to)@,
            old(env)@,
            final(to)@,
            final(env)@,
            r,
        ),
    decreases *tree, 2int,
{
    let ghost to0 = to@;
    let ghost env0 = env@;
    let ghost res = compile_spec(*tree, env0, frame as int, tail, toplevel);
    match tree {
        SyntaxElement::Quote(q) => {
            to.push(Instruction::Constant(q.quoted));
            proof {
                assert(to@ =~= to0 + res.out);
            }
            Ok(1)
        }
        SyntaxElement::If(i) => compile_if(i, to, env, frame, tail),
        SyntaxElement::Begin(b) => compile_sequence(&b.expressions, to, env, frame, tail),
        SyntaxElement::Assignment(s) => compile_assignment(s, to, env, frame),
        SyntaxElement::Reference(r) => {
            let resolved = env.resolve(frame, &r.variable);
            match resolved {
                Some(v) => {
                    let ins = make_get_instruction(env, frame, &v);
                    to.push(ins);
                    proof {
                        assert(to@ =~= to0 + res.out);
                    }
                    Ok(1)
                }
                None => {
                    proof {
                        assert(to@ =~= to0 + res.out);
                    }
                    Err(CompileError::UndefinedVariable(r.variable.clone()))
                }
            }
        }
        SyntaxElement::Lambda(l) => compile_lambda(l, to, env, frame),
        SyntaxElement::Define(d) => compile_define(d, to, env, frame, toplevel),
        SyntaxElement::Application(a) => compile_application(a, to, env, frame, tail),
    }
}

/// Compiles a conditional and back-patches its jumps.
#[verifier::rlimit(100)]
fn compile_if(i: &If, to: &mut Vec<Instruction>, env: &mut Environment, frame: usize, tail: bool)
    -> (r: Result<usize, CompileError>)
    requires
        env_wf(old(env)@),
        frame < old(env)@.len(),
        wf_tree(i.cond),
        wf_tree(i.t),
        i.f matches Some(fe) ==> wf_tree(fe),
    ensures
        emits(
            if_spec(*i, old(env)@, frame as int, tail),
            old(to)@,
            old(env)@,
            final(to)@,
            final(env)@,
            r,
        ),
    decreases *i, 0int,
{
    let initial_len = to.len();
    let ghost to0 = to@;
    let ghost env0 = env@;
    let ghost res = if_spec(*i, env0, frame as int, tail);
    let ghost c = compile_spec(i.cond, env0, frame as int, false, false);
    let rc = compile(&i.cond, to, env, frame, false, false);
    if rc.is_err() {
        return rc;
    }
    let cond_jump_idx = to.len();
    to.push(Instruction::NoOp);
    let ghost t = compile_spec(i.t, c.env, frame as int, tail, false);
    let rt = compile(&i.t, to, env, frame, tail, false);
    if rt.is_err() {
        proof {
            assert(to@ =~= to0 + (c.out + seq![Instruction::NoOp] + t.out));
        }
        return rt;
    }
    match &i.f {
        None => {
            let true_end = to.len();
            to[cond_jump_idx] = Instruction::JumpFalse(true_end - cond_jump_idx - 1);
            proof {
                assert(to@ =~= to0 + res.out);
            }
            Ok(to.len() - initial_len)
        }
        Some(fe) => {
            to.push(Instruction::NoOp);
            let true_end = to.len();
            let ghost f = compile_spec(*fe, t.env, frame as int, tail, false);
            let rf = compile(fe, to, env, frame, tail, false);
            if rf.is_err() {
                proof {
                    assert(to@ =~= to0 + (c.out + seq![Instruction::NoOp] + t.out
                        + seq![Instruction::NoOp] + f.out));
                }
                return rf;
            }
            let jump_len = to.len() - true_end;
            to[true_end - 1] = Instruction::Jump(jump_len);
            to[cond_jump_idx] = Instruction::JumpFalse(true_end - cond_jump_idx - 1);
            proof {
                assert(to@ =~= to0 + res.out);
            }
            Ok(to.len() - initial_len)
        }
    }
}

/// Compiles an assignment to an already-bound variable.
#[verifier::rlimit(50)]
fn compile_assignment(
    s: &Assignment,
    to: &mut Vec<Instruction>,
    env: &mut Environment,
    frame: usize,
) -> (r: Result<usize, CompileError>)
    requires
        env_wf(old(env)@),
        frame < old(env)@.len(),
        wf_tree(s.value),
    ensures
        emits(
            assignment_spec(*s, old(env)@, frame as int),
            old(to)@,
            old(env)@,
            final(to)@,
            final(env)@,
            r,
        ),
    decreases *s, 0int,
{
    let initial_len = to.len();
    let ghost to0 = to@;
    let ghost res = assignment_spec(*s, env@, frame as int);
    let resolved = env.resolve(frame, &s.variable);
    match resolved {
        Some(v) => {
            let rv = compile(&s.value, to, env, frame, false, false);
            if rv.is_err() {
                return rv;
            }
            let ins = make_set_instruction(env, frame, &v);
            to.push(ins);
            proof {
                assert(to@ =~= to0 + res.out);
            }
            Ok(to.len() - initial_len)
        }
        None => {
            proof {
                assert(to@ =~= to0 + res.out);
            }
            Err(CompileError::UndefinedVariable(s.variable.clone()))
        }
    }
}

/// Compiles a lambda: emits its header, compiles the body in a fresh child
/// frame, and back-patches the jump that skips the inline body.
#[verifier::rlimit(100)]
fn compile_lambda(l: &Lambda, to: &mut Vec<Instruction>, env: &mut Environment, frame: usize)
    -> (r: Result<usize, CompileError>)
    requires
        env_wf(old(env)@),
        frame < old(env)@.len(),
        l.expressions@.len() >= 1,
        wf_trees(l.expressions, 0),
    ensures
        emits(
            lambda_spec(*l, old(env)@, frame as int),
            old(to)@,
            old(env)@,
            final(to)@,
            final(env)@,
            r,
        ),
    decreases *l, 0int,
{
    let initial_len = to.len();
    let ghost to0 = to@;
    let ghost env0 = env@;
    let ghost res = lambda_spec(*l, env0, frame as int);
    let arity = l.formals.values.len();
    let dotted = l.formals.rest.is_some();
    to.push(Instruction::CreateClosure(1));
    let skip_pos = to.len();
    to.push(Instruction::NoOp);
    to.push(Instruction::CheckArity { arity, dotted });
    if dotted {
        to.push(Instruction::PackFrame(arity));
    }
    to.push(Instruction::ExtendEnv);

    let mut formal_names: Vec<String> = Vec::new();
    let mut j: usize = 0;
    while j < l.formals.values.len()
        invariant
            j <= l.formals.values@.len(),
            formal_names@.len() == j,
            forall|k: int| 0 <= k < j ==> #[trigger] formal_names@[k] == l.formals.values@[k],
        decreases l.formals.values@.len() - j,
    {
        formal_names.push(l.formals.values[j].clone());
        j = j + 1;
    }
    match &l.formals.rest {
        Some(rest) => formal_names.push(rest.clone()),
        None => {}
    }
    proof {
        assert(names_model(formal_names@) =~= formals_model(l.formals));
    }
    let lambda_frame = env.new_child(frame, &formal_names);
    let ghost env2 = env@;
    let ghost body = compile_seq_spec(l.expressions, 0, env2, lambda_frame as int, true);
    let rb = compile_sequence(&l.expressions, to, env, lambda_frame, true);
    if rb.is_err() {
        proof {
            assert(to@ =~= to0 + res.out);
        }
        return rb;
    }
    to.push(Instruction::Return);
    let skip_len = to.len() - skip_pos - 1;
    to[skip_pos] = Instruction::Jump(skip_len);
    proof {
        assert(to@ =~= to0 + res.out);
    }
    Ok(to.len() - initial_len)
}

/// Compiles a definition: only legal at top level; rebinding compiles as an
/// assignment, a new name registers a global slot and extends the frame.
#[verifier::rlimit(50)]
fn compile_define(
    d: &Define,
    to: &mut Vec<Instruction>,
    env: &mut Environment,
    frame: usize,
    toplevel: bool,
) -> (r: Result<usize, CompileError>)
    requires
        env_wf(old(env)@),
        frame < old(env)@.len(),
        wf_tree(d.value),
    ensures
        emits(
            define_spec(*d, old(env)@, frame as int, toplevel),
            old(to)@,
            old(env)@,
            final(to)@,
            final(env)@,
            r,
        ),
    decreases *d, 0int,
{
    let initial_len = to.len();
    let ghost to0 = to@;
    let ghost env0 = env@;
    let ghost res = define_spec(*d, env0, frame as int, toplevel);
    if toplevel {
        let resolved = env.resolve(frame, &d.variable);
        match resolved {
            Some(v) => {
                let rv = compile(&d.value, to, env, frame, false, false);
                if rv.is_err() {
                    return rv;
                }
                let ins = make_set_instruction(env, frame, &v);
                to.push(ins);
                proof {
                    assert(to@ =~= to0 + res.out);
                }
                Ok(to.len() - initial_len)
            }
            None => {
                env.define(frame, &d.variable, true);
                let rv = compile(&d.value, to, env, frame, false, false);
                if rv.is_err() {
                    return rv;
                }
                to.push(Instruction::ExtendFrame);
                proof {
                    assert(to@ =~= to0 + res.out);
                }
                Ok(to.len() - initial_len)
            }
        }
    } else {
        Err(CompileError::UnsupportedForm(("Non-top-level defines not yet supported.").to_owned()))
    }
}

/// Compiles a call: function, arguments each followed by a push, then the
/// invocation, preserving and restoring the environment unless in tail
/// position.
#[verifier::loop_isolation(false)]
#[verifier::rlimit(100)]
fn compile_application(
    a: &Application,
    to: &mut Vec<Instruction>,
    env: &mut Environment,
    frame: usize,
    tail: bool,
) -> (r: Result<usize, CompileError>)
    requires
        env_wf(old(env)@),
        frame < old(env)@.len(),
        wf_tree(a.function),
        wf_trees(a.args, 0),
    ensures
        emits(
            application_spec(*a, old(env)@, frame as int, tail),
            old(to)@,
            old(env)@,
            final(to)@,
            final(env)@,
            r,
        ),
    decreases *a, 0int,
{
    let initial_len = to.len();
    let ghost to0 = to@;
    let ghost env0 = env@;
    let ghost res = application_spec(*a, env0, frame as int, tail);
    let ghost f = compile_spec(a.function, env0, frame as int, false, false);
    let rf = compile(&a.function, to, env, frame, false, false);
    if rf.is_err() {
        return rf;
    }
    to.push(Instruction::PushValue);
    let ghost envf = env@;
    let ghost base = to@;
    let ghost mut emitted: Seq<Instruction> = Seq::empty();
    let mut j: usize = 0;
    while j < a.args.len()
        invariant
            j <= a.args@.len(),
            env_wf(env@),
            frame < env@.len(),
            frames_stable(env0, env@),
            wf_trees(a.args, j as int),
            to@ == base + emitted,
            compile_args_spec(a.args, 0, envf, frame as int).out == emitted + compile_args_spec(
                a.args,
                j as int,
                env@,
                frame as int,
            ).out,
            compile_args_spec(a.args, 0, envf, frame as int).env == compile_args_spec(
                a.args,
                j as int,
                env@,
                frame as int,
            ).env,
            compile_args_spec(a.args, 0, envf, frame as int).err == compile_args_spec(
                a.args,
                j as int,
                env@,
                frame as int,
            ).err,
        decreases a.args@.len() - j,
    {
        let ghost envj = env@;
        let ghost cj = compile_spec(a.args[j as int], envj, frame as int, false, false);
        proof {
            assert(decreases_to!(*a => a.args));
            assert(decreases_to!(a.args => a.args@[j as int]));
        }
        let ra = compile(&a.args[j], to, env, frame, false, false);
        match ra {
            Err(e) => {
                proof {
                    assert(compile_args_spec(a.args, j as int, envj, frame as int) == cj);
                    assert(compile_args_spec(a.args, 0, envf, frame as int).out =~= emitted
                        + cj.out);
                    assert(res.out =~= f.out + seq![Instruction::PushValue] + compile_args_spec(
                        a.args,
                        0,
                        envf,
                        frame as int,
                    ).out);
                    assert(to@ =~= to0 + res.out);
                }
                return Err(e);
            }
            Ok(_) => {}
        }
        to.push(Instruction::PushValue);
        proof {
            emitted = emitted + cj.out + seq![Instruction::PushValue];
            assert(to@ =~= base + emitted);
            assert(compile_args_spec(a.args, j as int, envj, frame as int).out =~= cj.out
                + seq![Instruction::PushValue] + compile_args_spec(
                a.args,
                j + 1,
                env@,
                frame as int,
            ).out);
        }
        j = j + 1;
    }
    to.push(Instruction::CreateFrame(a.args.len()));
    to.push(Instruction::PopFunction);
    if !tail {
        to.push(Instruction::PreserveEnv);
    }
    to.push(Instruction::FunctionInvoke { tail });
    if !tail {
        to.push(Instruction::RestoreEnv);
    }
    proof {
        assert(to@ =~= to0 + res.out);
    }
    Ok(to.len() - initial_len)
}

/// Compiles a non-empty body sequence: all but the last expression out of
/// tail position, the last at the ambient tail status, none at top level.
#[verifier::loop_isolation(false)]
#[verifier::rlimit(100)]
fn compile_sequence(
    expressions: &Vec<SyntaxElement>,
    to: &mut Vec<Instruction>,
    env: &mut Environment,
    frame: usize,
    tail: bool,
) -> (r: Result<usize, CompileError>)
    requires
        env_wf(old(env)@),
        frame < old(env)@.len(),
        expressions@.len() >= 1,
        wf_trees(*expressions, 0),
    ensures
        emits(
            compile_seq_spec(*expressions, 0, old(env)@, frame as int, tail),
            old(to)@,
            old(env)@,
            final(to)@,
            final(env)@,
            r,
        ),
    decreases *expressions, 0int,
{
    let initial_len = to.len();
    let ghost to0 = to@;
    let ghost env0 = env@;
    let ghost res = compile_seq_spec(*expressions, 0, env0, frame as int, tail);
    let ghost mut emitted: Seq<Instruction> = Seq::empty();
    let mut j: usize = 0;
    while j < expressions.len() - 1
        invariant
            expressions@.len() >= 1,
            j < expressions@.len(),
            env_wf(env@),
            frame < env@.len(),
            frames_stable(env0, env@),
            wf_trees(*expressions, j as int),
            to@ == to0 + emitted,
            res.out == emitted + compile_seq_spec(
                *expressions,
                j as int,
                env@,
                frame as int,
                tail,
            ).out,
            res.env == compile_seq_spec(*expressions, j as int, env@, frame as int, tail).env,
            res.err == compile_seq_spec(*expressions, j as int, env@, frame as int, tail).err,
        decreases expressions@.len() - 1 - j,
    {
        let ghost envj = env@;
        let ghost cj = compile_spec(expressions[j as int], envj, frame as int, false, false);
        proof {
            assert(decreases_to!(*expressions => expressions@[j as int]));
        }
        let rj = compile(&expressions[j], to, env, frame, false, false);
        match rj {
            Err(e) => {
                proof {
                    assert(compile_seq_spec(*expressions, j as int, envj, frame as int, tail)
                        == cj);
                    assert(to@ =~= to0 + res.out);
                }
                return Err(e);
            }
            Ok(_) => {}
        }
        proof {
            emitted = emitted + cj.out;
            assert(to@ =~= to0 + emitted);
            assert(compile_seq_spec(*expressions, j as int, envj, frame as int, tail).out
                =~= cj.out + compile_seq_spec(*expressions, j + 1, env@, frame as int, tail).out);
        }
        j = j + 1;
    }
    let ghost envl = env@;
    let ghost cl = compile_spec(expressions[j as int], envl, frame as int, tail, false);
    proof {
        assert(decreases_to!(*expressions => expressions@[j as int]));
    }
    let rl = compile(&expressions[j], to, env, frame, tail, false);
    match rl {
        Err(e) => {
            proof {
                assert(to@ =~= to0 + res.out);
            }
            return Err(e);
        }
        Ok(_) => {}
    }
    proof {
        assert(to@ =~= to0 + res.out);
    }
    Ok(to.len() - initial_len)
}

/// The read instruction for `variable`, addressed from `frame`: the checked
/// variant for a forward-referenced global, global or deep addressing by
/// altitude.
fn make_get_instruction(env: &Environment, frame: usize, variable: &Variable) -> (ins:
    Instruction)
    requires
        env_wf(env@),
        frame < env@.len(),
        variable.altitude <= env@[frame as int].altitude,
    ensures
        ins == get_instr(env@[frame as int].altitude, *variable),
{
    let depth = env.depth(frame, variable.altitude);
    let index = variable.index;
    if variable.altitude == 0 {
        if variable.initialized {
            Instruction::GlobalArgumentGet { index }
        } else {
            Instruction::CheckedGlobalArgumentGet { index }
        }
    } else {
        if variable.initialized {
            Instruction::LocalArgumentGet { depth, index }
        } else {
            Instruction::CheckedLocalArgumentGet { depth, index }
        }
    }
}

/// The write instruction for `variable`, addressed from `frame`.
fn make_set_instruction(env: &Environment, frame: usize, variable: &Variable) -> (ins:
    Instruction)
    requires
        env_wf(env@),
        frame < env@.len(),
        variable.altitude <= env@[frame as int].altitude,
    ensures
        ins == set_instr(env@[frame as int].altitude, *variable),
{
    let depth = env.depth(frame, variable.altitude);
    let index = variable.index;
    if variable.altitude == 0 {
        Instruction::GlobalArgumentSet { index }
    } else {
        Instruction::DeepArgumentSet { depth, index }
    }
}

} // verus!

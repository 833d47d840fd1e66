//! The syntax tree that the compiler consumes. Nodes arrive fully formed from
//! the front end; quoted data has already been interned into the value arena
//! and appears here only as a handle.

use vstd::prelude::*;

verus! {

/// A quoted (self-evaluating) datum, held as its arena handle.
pub struct Quote {
    pub quoted: usize,
}

/// A conditional with an optional alternative branch.
pub struct If {
    pub cond: SyntaxElement,
    pub t: SyntaxElement,
    pub f: Option<SyntaxElement>,
}

/// A non-empty ordered sequence of expressions.
pub struct Begin {
    pub expressions: Vec<SyntaxElement>,
}

/// An assignment to an already-bound variable.
pub struct Assignment {
    pub variable: String,
    pub value: SyntaxElement,
}

/// A read of a bound variable.
pub struct Reference {
    pub variable: String,
}

/// The formal parameters of a lambda: fixed names in declaration order, and
/// an optional "rest" name that captures excess arguments of a variadic call.
pub struct Formals {
    pub values: Vec<String>,
    pub rest: Option<String>,
}

/// A function literal with a non-empty body sequence.
pub struct Lambda {
    pub formals: Formals,
    pub expressions: Vec<SyntaxElement>,
}

/// A top-level definition.
pub struct Define {
    pub variable: String,
    pub value: SyntaxElement,
}

/// A function call.
pub struct Application {
    pub function: SyntaxElement,
    pub args: Vec<SyntaxElement>,
}

/// One node of the syntax tree.
pub enum SyntaxElement {
    Quote(Quote),
    If(Box<If>),
    Begin(Begin),
    Assignment(Box<Assignment>),
    Reference(Reference),
    Lambda(Box<Lambda>),
    Define(Box<Define>),
    Application(Box<Application>),
}

/// Structural well-formedness of a node: every `Begin` and every lambda body
/// is a non-empty sequence. The front end guarantees this; the compiler
/// requires it.
pub open spec fn wf_tree(e: SyntaxElement) -> bool
    decreases e, 0int,
{
    match e {
        SyntaxElement::Quote(_) => true,
        SyntaxElement::If(i) => wf_tree(i.cond) && wf_tree(i.t) && match i.f {
            Some(fe) => wf_tree(fe),
            None => true,
        },
        SyntaxElement::Begin(b) => b.expressions.len() >= 1 && wf_trees(b.expressions, 0),
        SyntaxElement::Assignment(s) => wf_tree(s.value),
        SyntaxElement::Reference(_) => true,
        SyntaxElement::Lambda(l) => l.expressions.len() >= 1 && wf_trees(l.expressions, 0),
        SyntaxElement::Define(d) => wf_tree(d.value),
        SyntaxElement::Application(a) => wf_tree(a.function) && wf_trees(a.args, 0),
    }
}

/// Well-formedness of every element of `es` from position `i` on.
pub open spec fn wf_trees(es: Vec<SyntaxElement>, i: int) -> bool
    decreases es, es.len() - i,
{
    0 <= i ==> (i >= es.len() || (wf_tree(es[i]) && wf_trees(es, i + 1)))
}

} // verus!

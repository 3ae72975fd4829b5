//! Expressions: the executable nodes of a compiled program.

use vstd::prelude::*;
use crate::error::{Error, ErrorView};
use crate::kind::Kind;
use crate::object::{answer_view, answers_of, Answer, Answers, Object, Path, SegmentView};
use crate::parse_timestamp::ParseTimestampFn;
use crate::state::{Compiler, CompilerView, Program, ProgramView};
use crate::to_string::ToStringFn;
use crate::type_def::{TypeDef, TypeDefView};
use crate::value::{Value, ValueView};

verus! {

/// What executing an expression comes to: a value or a failure.
pub type Outcome = Result<ValueView, ErrorView>;

/// The mathematical content of what `execute` returned.
pub open spec fn result_view(r: Result<Value, Error>) -> Outcome {
    match r {
        Ok(v) => Ok(v@),
        Err(e) => Err(e@),
    }
}

/// An expression that stands for a value written in the program.
#[derive(Debug, PartialEq, Eq)]
pub struct Literal {
    pub value: Value,
}

impl Literal {
    /// The literal of `value`.
    pub fn new(value: Value) -> (l: Literal)
        ensures
            l.value == value,
    {
        Literal { value }
    }

    /// The literal of the byte string that holds the UTF-8 bytes of `text`.
    pub fn text(text: &str) -> (l: Literal)
        ensures
            l.value@ == ValueView::Bytes(vstd::utf8::encode_utf8(text@)),
    {
        Literal { value: Value::from_text(text) }
    }

    /// The literal as a node of a program.
    pub fn boxed(self) -> (node: Box<Expr>)
        ensures
            *node == Expr::Literal(self),
    {
        Box::new(Expr::Literal(self))
    }

    /// A literal comes to its value.
    pub open spec fn eval(self) -> Outcome {
        Ok(self.value@)
    }

    /// A literal has the variant of its value and never fails.
    pub open spec fn type_of(self) -> TypeDefView {
        TypeDefView { fallible: false, kind: set![self.value@.variant()] }
    }

    /// Executes the literal.
    pub fn execute(&self) -> (r: Result<Value, Error>)
        ensures
            result_view(r) == self.eval(),
    {
        Ok(self.value.duplicate())
    }

    /// The type definition of the literal.
    pub fn type_def(&self) -> (t: TypeDef)
        ensures
            t@ == self.type_of(),
    {
        TypeDef::new(self.value.kind(), false)
    }
}

/// What a query comes to, given what the target said of its path: the
/// value there, null where there is none, or the target's refusal.
pub open spec fn queried(answer: Answer) -> Outcome {
    match answer {
        Ok(Some(v)) => Ok(v),
        Ok(None) => Ok(ValueView::Null),
        Err(m) => Err(ErrorView::Target(m)),
    }
}

/// Turns what the target said of a path into the result of a query.
pub fn query_result(answer: Result<Option<Value>, String>) -> (r: Result<Value, Error>)
    ensures
        result_view(r) == queried(answer_view(answer)),
{
    match answer {
        Ok(Some(v)) => Ok(v),
        Ok(None) => Ok(Value::Null),
        Err(m) => Err(Error::Target(m)),
    }
}

/// An expression that reads the value at a path of the target.
#[derive(Debug, PartialEq, Eq)]
pub struct Query {
    pub path: Path,
}

impl Query {
    /// The query of `path`.
    pub fn new(path: Path) -> (q: Query)
        ensures
            q.path == path,
    {
        Query { path }
    }

    /// The query of the field called `name` at the root of the target.
    pub fn field(name: &str) -> (q: Query)
        ensures
            q.path@ == seq![SegmentView::Field(name@)],
    {
        Query { path: Path::field(name) }
    }

    /// The query as a node of a program.
    pub fn boxed(self) -> (node: Box<Expr>)
        ensures
            *node == Expr::Query(self),
    {
        Box::new(Expr::Query(self))
    }

    /// A query comes to what the target says of its path.
    pub open spec fn eval(self, answers: Answers) -> Outcome {
        queried(answers(self.path@))
    }

    /// Nothing is known of what the target holds, and the target may
    /// refuse the path: any variant, and fallible.
    pub open spec fn type_of(self) -> TypeDefView {
        TypeDefView { fallible: true, kind: Set::full() }
    }

    /// Executes the query against `object`.
    pub fn execute<O: Object>(&self, object: &O) -> (r: Result<Value, Error>)
        ensures
            result_view(r) == self.eval(answers_of(object)),
    {
        query_result(object.get(&self.path))
    }

    /// The type definition of the query.
    pub fn type_def(&self) -> (t: TypeDef)
        ensures
            t@ == self.type_of(),
    {
        TypeDef::new(Kind::all(), true)
    }
}

/// An expression that reads a variable of the program.
#[derive(Debug, PartialEq, Eq)]
pub struct Variable {
    pub name: String,
}

impl Variable {
    /// The expression that reads the variable called `name`.
    pub fn new(name: String) -> (v: Variable)
        ensures
            v.name == name,
    {
        Variable { name }
    }

    /// The variable as a node of a program.
    pub fn boxed(self) -> (node: Box<Expr>)
        ensures
            *node == Expr::Variable(self),
    {
        Box::new(Expr::Variable(self))
    }

    /// A variable comes to the value bound to it, and fails where there is
    /// no binding.
    pub open spec fn eval(self, state: ProgramView) -> Outcome {
        match state.variable(self.name@) {
            Some(v) => Ok(v),
            None => Err(ErrorView::UndefinedVariable(self.name@)),
        }
    }

    /// A variable has the type definition declared for it. Without a
    /// declaration it may be anything, and reading it may fail.
    pub open spec fn type_of(self, state: CompilerView) -> TypeDefView {
        match state.variable_type(self.name@) {
            Some(t) => t,
            None => TypeDefView { fallible: true, kind: Set::full() },
        }
    }

    /// Executes the read in `state`.
    pub fn execute(&self, state: &Program) -> (r: Result<Value, Error>)
        ensures
            result_view(r) == self.eval(state@),
    {
        match state.variable(self.name.as_str()) {
            Some(v) => Ok(v.duplicate()),
            None => Err(Error::UndefinedVariable(self.name.clone())),
        }
    }

    /// The type definition of the variable under the declarations of `state`.
    pub fn type_def(&self, state: &Compiler) -> (t: TypeDef)
        ensures
            t@ == self.type_of(state@),
    {
        match state.variable_type(self.name.as_str()) {
            Some(t) => t,
            None => TypeDef::new(Kind::all(), true),
        }
    }
}

/// A node of a compiled program. A node owns the nodes below it: programs
/// are trees, and no node has two parents.
#[derive(Debug, PartialEq, Eq)]
pub enum Expr {
    Literal(Literal),
    Query(Query),
    Variable(Variable),
    ToString(ToStringFn),
    ParseTimestamp(ParseTimestampFn),
}

impl Expr {
    /// What executing the node comes to, given the state and what the
    /// target says of each path.
    pub open spec fn eval(self, state: ProgramView, answers: Answers) -> Outcome
        decreases self,
    {
        match self {
            Expr::Literal(node) => node.eval(),
            Expr::Query(node) => node.eval(answers),
            Expr::Variable(node) => node.eval(state),
            Expr::ToString(node) => node.eval(state, answers),
            Expr::ParseTimestamp(node) => node.eval(state, answers),
        }
    }

    /// The type definition of the node, given the declarations.
    pub open spec fn type_of(self, state: CompilerView) -> TypeDefView
        decreases self,
    {
        match self {
            Expr::Literal(node) => node.type_of(),
            Expr::Query(node) => node.type_of(),
            Expr::Variable(node) => node.type_of(state),
            Expr::ToString(node) => node.type_of(state),
            Expr::ParseTimestamp(node) => node.type_of(state),
        }
    }

    /// Executes the node against `object`. It runs to the end: it returns
    /// a value or a failure and nothing in between, and it leaves the state
    /// and the target as they were.
    pub fn execute<O: Object>(&self, state: &mut Program, object: &mut O) -> (r: Result<
        Value,
        Error,
    >)
        ensures
            result_view(r) == self.eval(old(state)@, answers_of(old(object))),
            *final(state) == *old(state),
            *final(object) == *old(object),
        decreases self,
    {
        match self {
            Expr::Literal(node) => node.execute(),
            Expr::Query(node) => node.execute(&*object),
            Expr::Variable(node) => node.execute(&*state),
            Expr::ToString(node) => node.execute(state, object),
            Expr::ParseTimestamp(node) => node.execute(state, object),
        }
    }

    /// The type definition of the node. It reads the declarations and
    /// nothing else.
    pub fn type_def(&self, state: &Compiler) -> (t: TypeDef)
        ensures
            t@ == self.type_of(state@),
        decreases self,
    {
        match self {
            Expr::Literal(node) => node.type_def(),
            Expr::Query(node) => node.type_def(),
            Expr::Variable(node) => node.type_def(state),
            Expr::ToString(node) => node.type_def(state),
            Expr::ParseTimestamp(node) => node.type_def(state),
        }
    }
}

/// Whether every variable that is bound holds a value of a variant that
/// its declaration, if there is one, allows.
pub open spec fn follows(state: ProgramView, declared: CompilerView) -> bool {
    forall|name: Seq<char>|
        (#[trigger] state.variable(name)) matches Some(value) ==> (declared.variable_type(
            name,
        ) matches Some(t) ==> t.kind.contains(value.variant()))
}

/// What a node comes to, when it comes to a value, is of a variant that
/// its type definition names, as long as the variables hold what was
/// declared for them. The fallible flag promises less: see the built-ins.
pub proof fn lemma_kind_is_sound(
    node: Expr,
    state: ProgramView,
    answers: Answers,
    declared: CompilerView,
)
    requires
        follows(state, declared),
    ensures
        node.eval(state, answers) matches Ok(value) ==> node.type_of(declared).kind.contains(
            value.variant(),
        ),
    decreases node,
{
    match node {
        Expr::Literal(_) => {},
        Expr::Query(_) => {},
        Expr::Variable(_) => {},
        Expr::ToString(call) => {
            lemma_kind_is_sound(*call.value, state, answers, declared);
        },
        Expr::ParseTimestamp(call) => {
            lemma_kind_is_sound(*call.value, state, answers, declared);
        },
    }
}

} // verus!

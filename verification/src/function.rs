//! Built-in functions: what they are called, which arguments they take,
//! and how a call is compiled into a node.

use vstd::prelude::*;
use crate::error::{Error, ErrorView};
use crate::expression::Expr;
use crate::kind::{Kind, Variant};
use crate::text::same_text;
use crate::value::Value;

verus! {

/// The mathematical content of a [`Parameter`].
pub struct ParameterView {
    pub keyword: Seq<char>,
    pub accepts: Set<Variant>,
    pub required: bool,
}

/// What a function declares of one of its arguments: the keyword it goes
/// by, the variants a value given for it may have, and whether a call may
/// leave it out.
#[derive(Clone, Copy, Debug, PartialEq, Eq)]
pub struct Parameter {
    pub keyword: &'static str,
    pub accepts: Kind,
    pub required: bool,
}

impl View for Parameter {
    type V = ParameterView;

    open spec fn view(&self) -> ParameterView {
        ParameterView { keyword: self.keyword@, accepts: self.accepts@, required: self.required }
    }
}

impl Parameter {
    /// Whether `value` may be given for the parameter.
    pub fn accepts_value(&self, value: &Value) -> (b: bool)
        ensures
            b == self@.accepts.contains(value@.variant()),
    {
        self.accepts.has(value.variant())
    }
}

/// The content of a row of parameters.
pub open spec fn parameter_views(list: Seq<Parameter>) -> Seq<ParameterView> {
    Seq::new(list.len(), |i: int| list[i]@)
}

/// An argument of a call: a keyword and the node given for it.
#[derive(Debug, PartialEq, Eq)]
pub struct Argument {
    pub keyword: String,
    pub expression: Expr,
}

/// Where the first argument with `keyword` stands, looking from `from` on.
pub open spec fn position_from(arguments: Seq<Argument>, keyword: Seq<char>, from: int) -> Option<
    int,
>
    decreases arguments.len() - from,
{
    if from >= arguments.len() {
        None
    } else if arguments[from].keyword@ == keyword {
        Some(from)
    } else {
        position_from(arguments, keyword, from + 1)
    }
}

/// Where the first argument with `keyword` stands.
pub open spec fn position(arguments: Seq<Argument>, keyword: Seq<char>) -> Option<int> {
    position_from(arguments, keyword, 0)
}

/// The node given for `keyword`: that of the first argument with it.
pub open spec fn argument(arguments: Seq<Argument>, keyword: Seq<char>) -> Option<Expr> {
    match position(arguments, keyword) {
        Some(at) => Some(arguments[at].expression),
        None => None,
    }
}

/// The first required parameter for which no argument is given.
pub open spec fn first_missing(signature: Seq<ParameterView>, arguments: Seq<Argument>) -> Option<
    Seq<char>,
>
    decreases signature.len(),
{
    if signature.len() == 0 {
        None
    } else if signature[0].required && position(arguments, signature[0].keyword) is None {
        Some(signature[0].keyword)
    } else {
        first_missing(signature.skip(1), arguments)
    }
}

/// A position that was found is in range, holds the keyword, and nothing
/// before it does.
pub proof fn lemma_position_from(arguments: Seq<Argument>, keyword: Seq<char>, from: int)
    requires
        0 <= from,
    ensures
        match position_from(arguments, keyword, from) {
            Some(at) => from <= at < arguments.len() && arguments[at].keyword@ == keyword
                && forall|j: int| from <= j < at ==> arguments[j].keyword@ != keyword,
            None => forall|j: int| from <= j < arguments.len() ==> arguments[j].keyword@ != keyword,
        },
    decreases arguments.len() - from,
{
    if from < arguments.len() && arguments[from].keyword@ != keyword {
        lemma_position_from(arguments, keyword, from + 1);
    }
}

/// The first place from `from` on where `keyword` stands is its position.
pub proof fn lemma_position_is(arguments: Seq<Argument>, keyword: Seq<char>, from: int, at: int)
    requires
        0 <= from <= at < arguments.len(),
        arguments[at].keyword@ == keyword,
        forall|j: int| from <= j < at ==> arguments[j].keyword@ != keyword,
    ensures
        position_from(arguments, keyword, from) == Some(at),
    decreases at - from,
{
    if from < at {
        lemma_position_is(arguments, keyword, from + 1, at);
    }
}

/// Where no place from `from` on holds `keyword`, it has no position.
pub proof fn lemma_position_none(arguments: Seq<Argument>, keyword: Seq<char>, from: int)
    requires
        0 <= from,
        forall|j: int| from <= j < arguments.len() ==> arguments[j].keyword@ != keyword,
    ensures
        position_from(arguments, keyword, from) is None,
    decreases arguments.len() - from,
{
    if from < arguments.len() {
        lemma_position_none(arguments, keyword, from + 1);
    }
}

/// Taking one argument out leaves the nodes given for other keywords as
/// they were.
pub proof fn lemma_remove_keeps_others(arguments: Seq<Argument>, at: int, other: Seq<char>)
    requires
        0 <= at < arguments.len(),
        arguments[at].keyword@ != other,
    ensures
        argument(arguments.remove(at), other) == argument(arguments, other),
{
    let rest = arguments.remove(at);
    lemma_position_from(arguments, other, 0);
    match position(arguments, other) {
        Some(p) => {
            let q = if p < at {
                p
            } else {
                p - 1
            };
            assert forall|j: int| 0 <= j < q implies rest[j].keyword@ != other by {
                if j < at {
                    assert(rest[j] == arguments[j]);
                } else {
                    assert(rest[j] == arguments[j + 1]);
                }
            }
            lemma_position_is(rest, other, 0, q);
        },
        None => {
            assert forall|j: int| 0 <= j < rest.len() implies rest[j].keyword@ != other by {
                if j < at {
                    assert(rest[j] == arguments[j]);
                } else {
                    assert(rest[j] == arguments[j + 1]);
                }
            }
            lemma_position_none(rest, other, 0);
        },
    }
}

/// The arguments of one call, each under its keyword.
#[derive(Debug, PartialEq, Eq)]
pub struct ArgumentList {
    pub arguments: Vec<Argument>,
}

impl View for ArgumentList {
    type V = Seq<Argument>;

    open spec fn view(&self) -> Seq<Argument> {
        self.arguments@
    }
}

impl ArgumentList {
    /// The list without arguments.
    pub fn new() -> (list: ArgumentList)
        ensures
            list@ == Seq::<Argument>::empty(),
    {
        ArgumentList { arguments: Vec::new() }
    }

    /// Adds `expression` under `keyword`, behind the arguments that are
    /// there.
    pub fn insert(&mut self, keyword: &str, expression: Expr)
        ensures
            final(self)@.len() == old(self)@.len() + 1,
            final(self)@.drop_last() == old(self)@,
            final(self)@.last().keyword@ == keyword@,
            final(self)@.last().expression == expression,
    {
        self.arguments.push(Argument { keyword: keyword.to_owned(), expression });
        proof {
            assert(self@.drop_last() =~= old(self)@);
        }
    }

    /// Where the first argument with `keyword` stands.
    pub fn find(&self, keyword: &str) -> (r: Option<usize>)
        ensures
            match r {
                Some(at) => position(self@, keyword@) == Some(at as int),
                None => position(self@, keyword@) is None,
            },
    {
        let mut i: usize = 0;
        while i < self.arguments.len()
            invariant
                i <= self.arguments.len(),
                forall|j: int| 0 <= j < i ==> self@[j].keyword@ != keyword@,
            decreases self.arguments.len() - i,
        {
            if same_text(self.arguments[i].keyword.as_str(), keyword) {
                proof {
                    lemma_position_is(self@, keyword@, 0, i as int);
                }
                return Some(i);
            }
            i += 1;
        }
        proof {
            lemma_position_none(self@, keyword@, 0);
        }
        None
    }

    /// Takes the node given for `keyword` out of the list. Where there is
    /// none, the failure names the keyword and the list stays as it was.
    pub fn required(&mut self, keyword: &str) -> (r: Result<Expr, Error>)
        ensures
            match argument(old(self)@, keyword@) {
                Some(node) => r == Ok::<Expr, Error>(node) && final(self)@ == old(self)@.remove(
                    position(old(self)@, keyword@)->0,
                ),
                None => r matches Err(e) && e@ == ErrorView::MissingArgument(keyword@)
                    && final(self)@ == old(self)@,
            },
            forall|other: Seq<char>|
                other != keyword@ ==> argument(final(self)@, other) == argument(old(self)@, other),
    {
        match self.find(keyword) {
            Some(at) => {
                proof {
                    lemma_position_from(self@, keyword@, 0);
                    assert forall|other: Seq<char>| other != keyword@ implies argument(
                        self@.remove(at as int),
                        other,
                    ) == argument(self@, other) by {
                        lemma_remove_keeps_others(self@, at as int, other);
                    }
                }
                let taken = self.arguments.remove(at);
                Ok(taken.expression)
            },
            None => Err(Error::MissingArgument(keyword.to_owned())),
        }
    }

    /// Takes the node given for `keyword` out of the list, if there is one.
    pub fn optional(&mut self, keyword: &str) -> (r: Option<Expr>)
        ensures
            r == argument(old(self)@, keyword@),
            match position(old(self)@, keyword@) {
                Some(at) => final(self)@ == old(self)@.remove(at),
                None => final(self)@ == old(self)@,
            },
            forall|other: Seq<char>|
                other != keyword@ ==> argument(final(self)@, other) == argument(old(self)@, other),
    {
        match self.find(keyword) {
            Some(at) => {
                proof {
                    lemma_position_from(self@, keyword@, 0);
                    assert forall|other: Seq<char>| other != keyword@ implies argument(
                        self@.remove(at as int),
                        other,
                    ) == argument(self@, other) by {
                        lemma_remove_keeps_others(self@, at as int, other);
                    }
                }
                let taken = self.arguments.remove(at);
                Some(taken.expression)
            },
            None => None,
        }
    }
}

/// A built-in function: a name, the parameters it declares, and the way
/// from the arguments of a call to the node that executes it.
pub trait Function {
    /// The name that programs call the function by.
    spec fn name(&self) -> Seq<char>;

    /// The parameters of the function, in the order of their declaration.
    spec fn signature(&self) -> Seq<ParameterView>;

    /// The name that programs call the function by.
    fn identifier(&self) -> (name: &'static str)
        ensures
            name@ == self.name(),
    ;

    /// The parameters of the function, in the order of their declaration.
    fn parameters(&self) -> (list: Vec<Parameter>)
        ensures
            parameter_views(list@) == self.signature(),
    ;

    /// Compiles a call with the given arguments. Where a required argument
    /// is absent there is no node: the failure names the first parameter,
    /// in the order of declaration, that the call leaves out.
    fn compile(&self, arguments: ArgumentList) -> (r: Result<Expr, Error>)
        ensures
            first_missing(self.signature(), arguments@) matches Some(keyword) ==> (r matches Err(e)
                && e@ == ErrorView::MissingArgument(keyword)),
    ;
}

} // verus!

//! The built-in that turns a value into its text.

use vstd::prelude::*;
use vstd::utf8::encode_utf8;
use crate::error::{Error, ErrorView};
use crate::expression::{result_view, Expr, Outcome};
use crate::function::{
    argument, first_missing, parameter_views, ArgumentList, Function, Parameter,
    ParameterView,
};
use crate::kind::{Kind, Variant};
use crate::object::{answers_of, Answers, Object};
use crate::state::{Compiler, CompilerView, Program, ProgramView};
use crate::text::{decimal, decimal_bytes};
use crate::time::utc_instant_text;
use crate::type_def::{TypeDef, TypeDefView};
use crate::value::{Value, ValueView};

verus! {

/// The bytes of the text `true`.
pub open spec fn true_text() -> Seq<u8> {
    seq![116u8, 114u8, 117u8, 101u8]
}

/// The bytes of the text `false`.
pub open spec fn false_text() -> Seq<u8> {
    seq![102u8, 97u8, 108u8, 115u8, 101u8]
}

/// The text of a value, as a byte string. Bytes stay as they are; numbers,
/// booleans, timestamps and regular expressions are written out; null is
/// the empty text. Mappings and arrays have no text.
pub open spec fn text_of(value: ValueView) -> Outcome {
    match value {
        ValueView::Bytes(bytes) => Ok(ValueView::Bytes(bytes)),
        ValueView::Integer(n) => Ok(ValueView::Bytes(decimal(n))),
        ValueView::Float(f) => Ok(ValueView::Bytes(encode_utf8(f.text))),
        ValueView::Boolean(b) => Ok(ValueView::Bytes(if b { true_text() } else { false_text() })),
        ValueView::Timestamp(t) => Ok(
            ValueView::Bytes(encode_utf8(utc_instant_text(t.secs, t.nanos))),
        ),
        ValueView::Regex(pattern) => Ok(ValueView::Bytes(encode_utf8(pattern))),
        ValueView::Null => Ok(ValueView::Bytes(Seq::empty())),
        ValueView::Mapping(_) => Err(ErrorView::NotText),
        ValueView::Array(_) => Err(ErrorView::NotText),
    }
}

/// The text of `value`.
pub fn to_text(value: Value) -> (r: Result<Value, Error>)
    ensures
        result_view(r) == text_of(value@),
{
    match value {
        Value::Bytes(bytes) => Ok(Value::Bytes(bytes)),
        Value::Integer(n) => Ok(Value::Bytes(decimal_bytes(n))),
        Value::Float(f) => Ok(Value::from_text(f.text())),
        Value::Boolean(b) => {
            let mut bytes: Vec<u8> = Vec::new();
            if b {
                bytes.push(116);
                bytes.push(114);
                bytes.push(117);
                bytes.push(101);
                proof {
                    assert(bytes@ =~= true_text());
                }
            } else {
                bytes.push(102);
                bytes.push(97);
                bytes.push(108);
                bytes.push(115);
                bytes.push(101);
                proof {
                    assert(bytes@ =~= false_text());
                }
            }
            Ok(Value::Bytes(bytes))
        },
        Value::Timestamp(t) => {
            let text = t.to_text();
            Ok(Value::from_text(text.as_str()))
        },
        Value::Regex(pattern) => Ok(Value::from_text(pattern.as_str())),
        Value::Null => Ok(Value::Bytes(Vec::new())),
        Value::Mapping(_) => Err(Error::NotText),
        Value::Array(_) => Err(Error::NotText),
    }
}

/// The built-in `to_string`. It takes one argument, `value`, of any kind.
#[derive(Clone, Copy, Debug)]
pub struct ToString;

/// The keyword of the only parameter.
pub open spec fn value_keyword() -> Seq<char> {
    "value"@
}

impl Function for ToString {
    open spec fn name(&self) -> Seq<char> {
        "to_string"@
    }

    /// One required parameter, `value`, which accepts every variant.
    open spec fn signature(&self) -> Seq<ParameterView> {
        seq![ParameterView { keyword: value_keyword(), accepts: Set::full(), required: true }]
    }

    fn identifier(&self) -> (name: &'static str) {
        "to_string"
    }

    fn parameters(&self) -> (list: Vec<Parameter>) {
        let list = vec![Parameter { keyword: "value", accepts: Kind::all(), required: true }];
        proof {
            assert(parameter_views(list@) =~= self.signature());
        }
        list
    }

    /// The node of a call is a [`ToStringFn`] on the node given for
    /// `value`; without that argument there is no node.
    fn compile(&self, arguments: ArgumentList) -> (r: Result<Expr, Error>)
        ensures
            match argument(arguments@, value_keyword()) {
                Some(value) => r == Ok::<Expr, Error>(
                    Expr::ToString(ToStringFn { value: Box::new(value) }),
                ),
                None => r matches Err(e) && e@ == ErrorView::MissingArgument(value_keyword()),
            },
    {
        let mut arguments = arguments;
        proof {
            let signature = self.signature();
            assert(signature.skip(1) =~= Seq::<ParameterView>::empty());
            assert(first_missing(signature.skip(1), arguments@) is None);
        }
        match arguments.required("value") {
            Ok(value) => Ok(Expr::ToString(ToStringFn { value: Box::new(value) })),
            Err(e) => Err(e),
        }
    }
}

/// The compiled call of `to_string`: it executes the node below it and
/// gives the text of what came out.
#[derive(Debug, PartialEq, Eq)]
pub struct ToStringFn {
    pub value: Box<Expr>,
}

impl ToStringFn {
    /// The call on `value`.
    pub fn new(value: Box<Expr>) -> (f: ToStringFn)
        ensures
            f.value == value,
    {
        ToStringFn { value }
    }

    /// The call as a node of a program.
    pub fn boxed(self) -> (node: Box<Expr>)
        ensures
            *node == Expr::ToString(self),
    {
        Box::new(Expr::ToString(self))
    }

    /// The call fails where the node below fails, and otherwise comes to
    /// the text of the value.
    pub open spec fn eval(self, state: ProgramView, answers: Answers) -> Outcome
        decreases self,
    {
        match self.value.eval(state, answers) {
            Ok(value) => text_of(value),
            Err(e) => Err(e),
        }
    }

    /// The call always gives bytes, and is as fallible as the node below.
    pub open spec fn type_of(self, state: CompilerView) -> TypeDefView
        decreases self,
    {
        self.value.type_of(state).with_constraint(set![Variant::Bytes])
    }

    /// Executes the call against `object`.
    pub fn execute<O: Object>(&self, state: &mut Program, object: &mut O) -> (r: Result<
        Value,
        Error,
    >)
        ensures
            result_view(r) == self.eval(old(state)@, answers_of(old(object))),
            *final(state) == *old(state),
            *final(object) == *old(object),
        decreases self,
    {
        match self.value.execute(state, object) {
            Ok(value) => to_text(value),
            Err(e) => Err(e),
        }
    }

    /// The type definition of the call.
    pub fn type_def(&self, state: &Compiler) -> (t: TypeDef)
        ensures
            t@ == self.type_of(state@),
        decreases self,
    {
        self.value.type_def(state).with_constraint(Kind::bytes())
    }
}

/// Whether a value of this variant has a text.
pub open spec fn has_text(variant: Variant) -> bool {
    variant != Variant::Mapping && variant != Variant::Array
}

/// Every value but a mapping and an array has a text, and the text is a
/// byte string. A mapping and an array have none.
pub proof fn lemma_text_of(value: ValueView)
    ensures
        has_text(value.variant()) ==> text_of(value) is Ok && text_of(value)->Ok_0 is Bytes,
        !has_text(value.variant()) ==> text_of(value) == Err::<ValueView, ErrorView>(
            ErrorView::NotText,
        ),
{
}

/// The call succeeds exactly when the node below it comes to a value that
/// has a text, and what it then gives is a byte string.
pub proof fn lemma_to_string_succeeds(call: ToStringFn, state: ProgramView, answers: Answers)
    ensures
        call.eval(state, answers) is Ok <==> (call.value.eval(state, answers) matches Ok(value)
            && has_text(value.variant())),
        call.eval(state, answers) matches Ok(text) ==> text is Bytes,
{
    match call.value.eval(state, answers) {
        Ok(value) => {
            lemma_text_of(value);
        },
        Err(_) => {},
    }
}

/// The call is declared to give bytes only, and to be exactly as fallible
/// as the node below it.
pub proof fn lemma_to_string_type(call: ToStringFn, state: CompilerView)
    ensures
        call.type_of(state).kind == set![Variant::Bytes],
        call.type_of(state).fallible == call.value.type_of(state).fallible,
{
}

/// On a value written in the program the call is declared to give bytes
/// and never to fail, whatever the value is. It does succeed unless the
/// value is a mapping or an array: on those it fails, although it is
/// declared not to.
pub proof fn lemma_to_string_of_literal(
    call: ToStringFn,
    state: ProgramView,
    answers: Answers,
    declared: CompilerView,
)
    requires
        *call.value is Literal,
    ensures
        call.type_of(declared) == (TypeDefView { fallible: false, kind: set![Variant::Bytes] }),
        call.eval(state, answers) == text_of(call.value->Literal_0.value@),
        has_text(call.value->Literal_0.value@.variant()) ==> call.eval(state, answers) is Ok,
        !has_text(call.value->Literal_0.value@.variant()) ==> call.eval(state, answers) == Err::<
            ValueView,
            ErrorView,
        >(ErrorView::NotText),
{
    lemma_text_of(call.value->Literal_0.value@);
}

} // verus!

//! The built-in that reads a timestamp from text.

use vstd::prelude::*;
use crate::conversion::{
    lemma_rule_of_prefixed, lossy, lossy_text, rule_for, rule_named, timestamp_prefix, Conversion,
    ConversionView,
};
use crate::error::{Error, ErrorView};
use crate::expression::{result_view, Expr, Literal, Outcome};
use crate::function::{
    argument, first_missing, parameter_views, position, ArgumentList,
    Function, Parameter, ParameterView,
};
use crate::kind::{Kind, Variant};
use crate::object::{answers_of, Answers, Object};
use crate::state::{Compiler, CompilerView, Program, ProgramView};
use crate::type_def::{TypeDef, TypeDefView};
use crate::value::{Value, ValueView};

verus! {

/// The built-in `parse_timestamp`. It takes `value`, bytes or a timestamp,
/// and `format`, bytes.
#[derive(Clone, Copy, Debug)]
pub struct ParseTimestamp;

/// The keyword of the first parameter.
pub open spec fn value_keyword() -> Seq<char> {
    "value"@
}

/// The keyword of the second parameter.
pub open spec fn format_keyword() -> Seq<char> {
    "format"@
}

/// The variants that `value` may have without the call failing for that
/// reason alone.
pub open spec fn readable() -> Set<Variant> {
    set![Variant::Bytes, Variant::Timestamp]
}

/// The specifier of the conversion that reads timestamps with a format
/// given as bytes.
pub open spec fn specifier_of(format: Seq<u8>) -> Seq<char> {
    timestamp_prefix() + lossy_text(format)
}

/// What the call makes of a value, given what its format came to.
///
/// Bytes are read as a timestamp under the format, which has to be bytes
/// too; a failure of the format is then the failure of the call. A timestamp
/// stays as it is, whatever became of the format. Nothing else is a
/// timestamp or can be read as one.
pub open spec fn timestamp_of(value: ValueView, format: Outcome) -> Outcome {
    match value {
        ValueView::Bytes(bytes) => match format {
            Ok(ValueView::Bytes(f)) => match rule_named(specifier_of(f)) {
                Ok(rule) => rule.convert(bytes),
                Err(e) => Err(e),
            },
            Ok(_) => Err(ErrorView::NotBytes),
            Err(e) => Err(e),
        },
        ValueView::Timestamp(_) => Ok(value),
        _ => Err(ErrorView::NotTimestamp),
    }
}

/// The specifier of the conversion that reads timestamps with `format`.
pub fn specifier_for(format: &[u8]) -> (s: String)
    ensures
        s@ == specifier_of(format@),
{
    proof {
        reveal_strlit("timestamp|");
        assert("timestamp|"@ =~= timestamp_prefix());
    }
    let text = lossy(format);
    "timestamp|".to_owned().concat(text.as_str())
}

/// What the call makes of `value`, given what its format came to.
pub fn timestamp_from(value: Value, format: Result<Value, Error>) -> (r: Result<Value, Error>)
    ensures
        result_view(r) == timestamp_of(value@, result_view(format)),
{
    match value {
        Value::Bytes(bytes) => match format {
            Ok(Value::Bytes(f)) => {
                let specifier = specifier_for(f.as_slice());
                match Conversion::parse(specifier.as_str()) {
                    Ok(rule) => rule.convert(bytes.as_slice()),
                    Err(e) => Err(e),
                }
            },
            Ok(_) => Err(Error::NotBytes),
            Err(e) => Err(e),
        },
        Value::Timestamp(t) => Ok(Value::Timestamp(t)),
        _ => Err(Error::NotTimestamp),
    }
}

impl Function for ParseTimestamp {
    open spec fn name(&self) -> Seq<char> {
        "parse_timestamp"@
    }

    /// Two required parameters: `value`, which accepts bytes and
    /// timestamps, and `format`, which accepts bytes.
    open spec fn signature(&self) -> Seq<ParameterView> {
        seq![
            ParameterView { keyword: value_keyword(), accepts: readable(), required: true },
            ParameterView {
                keyword: format_keyword(),
                accepts: set![Variant::Bytes],
                required: true,
            },
        ]
    }

    fn identifier(&self) -> (name: &'static str) {
        "parse_timestamp"
    }

    fn parameters(&self) -> (list: Vec<Parameter>) {
        let bytes_or_timestamp = Kind::bytes().union(Kind::timestamp());
        proof {
            assert(bytes_or_timestamp@ =~= readable());
        }
        let list = vec![
            Parameter { keyword: "value", accepts: bytes_or_timestamp, required: true },
            Parameter { keyword: "format", accepts: Kind::bytes(), required: true },
        ];
        proof {
            assert(parameter_views(list@) =~= self.signature());
        }
        list
    }

    /// The node of a call is a [`ParseTimestampFn`] on the nodes given for
    /// `value` and `format`. Without one of them there is no node, and the
    /// failure names `value` if that is absent, else `format`.
    fn compile(&self, arguments: ArgumentList) -> (r: Result<Expr, Error>)
        ensures
            match (argument(arguments@, value_keyword()), argument(arguments@, format_keyword())) {
                (Some(value), Some(format)) => r == Ok::<Expr, Error>(
                    Expr::ParseTimestamp(
                        ParseTimestampFn { value: Box::new(value), format: Box::new(format) },
                    ),
                ),
                (None, _) => r matches Err(e) && e@ == ErrorView::MissingArgument(
                    value_keyword(),
                ),
                (Some(_), None) => r matches Err(e) && e@ == ErrorView::MissingArgument(
                    format_keyword(),
                ),
            },
    {
        let mut arguments = arguments;
        proof {
            reveal_strlit("value");
            reveal_strlit("format");
            assert("value"@.len() == 5);
            assert("format"@.len() == 6);
            assert(value_keyword() != format_keyword());
            let signature = self.signature();
            let last = signature.skip(1);
            assert(last.skip(1) =~= Seq::<ParameterView>::empty());
            assert(last[0] == signature[1]);
            assert(first_missing(last.skip(1), arguments@) is None);
            assert(first_missing(last, arguments@) == if position(
                arguments@,
                format_keyword(),
            ) is None {
                Some(format_keyword())
            } else {
                None
            });
            assert(first_missing(signature, arguments@) == if position(
                arguments@,
                value_keyword(),
            ) is None {
                Some(value_keyword())
            } else {
                first_missing(last, arguments@)
            });
        }
        let value = match arguments.required("value") {
            Ok(value) => value,
            Err(e) => {
                return Err(e);
            },
        };
        let format = match arguments.required("format") {
            Ok(format) => format,
            Err(e) => {
                return Err(e);
            },
        };
        Ok(
            Expr::ParseTimestamp(
                ParseTimestampFn { value: Box::new(value), format: Box::new(format) },
            ),
        )
    }
}

/// The compiled call of `parse_timestamp`: it executes the node for the
/// value, then the node for the format, and reads the one under the other.
#[derive(Debug, PartialEq, Eq)]
pub struct ParseTimestampFn {
    pub value: Box<Expr>,
    pub format: Box<Expr>,
}

impl ParseTimestampFn {
    /// The call that reads what `value` comes to under the format written
    /// as `format`.
    pub fn new(format: &str, value: Box<Expr>) -> (f: ParseTimestampFn)
        ensures
            f.value == value,
            *f.format matches Expr::Literal(written) && written.value@ == ValueView::Bytes(
                vstd::utf8::encode_utf8(format@),
            ),
    {
        let format = Literal::text(format).boxed();
        ParseTimestampFn { value, format }
    }

    /// The call as a node of a program.
    pub fn boxed(self) -> (node: Box<Expr>)
        ensures
            *node == Expr::ParseTimestamp(self),
    {
        Box::new(Expr::ParseTimestamp(self))
    }

    /// The call fails where the node for the value fails. Otherwise the
    /// node for the format is executed too, and the call comes to what
    /// [`timestamp_of`] makes of the two.
    pub open spec fn eval(self, state: ProgramView, answers: Answers) -> Outcome
        decreases self,
    {
        match self.value.eval(state, answers) {
            Ok(value) => timestamp_of(value, self.format.eval(state, answers)),
            Err(e) => Err(e),
        }
    }

    /// The call always gives a timestamp. It is fallible where the node
    /// for the value is, and where that node may give something that is
    /// neither bytes nor a timestamp.
    pub open spec fn type_of(self, state: CompilerView) -> TypeDefView
        decreases self,
    {
        self.value.type_of(state).fallible_unless(readable()).with_constraint(
            set![Variant::Timestamp],
        )
    }

    /// Executes the call against `object`.
    pub fn execute<O: Object>(&self, state: &mut Program, object: &mut O) -> (r: Result<
        Value,
        Error,
    >)
        ensures
            result_view(r) == self.eval(old(state)@, answers_of(old(object))),
            *final(state) == *old(state),
            *final(object) == *old(object),
        decreases self,
    {
        let value = match self.value.execute(state, object) {
            Ok(value) => value,
            Err(e) => {
                return Err(e);
            },
        };
        let format = self.format.execute(state, object);
        timestamp_from(value, format)
    }

    /// The type definition of the call.
    pub fn type_def(&self, state: &Compiler) -> (t: TypeDef)
        ensures
            t@ == self.type_of(state@),
        decreases self,
    {
        let allowed = Kind::bytes().union(Kind::timestamp());
        proof {
            assert(allowed@ =~= readable());
        }
        self.value.type_def(state).fallible_unless(allowed).with_constraint(Kind::timestamp())
    }
}

/// A value that is a timestamp comes out of the call as it went in,
/// whatever the format is and whatever executing it comes to.
pub proof fn lemma_timestamp_passes(
    call: ParseTimestampFn,
    state: ProgramView,
    answers: Answers,
    at: crate::time::Instant,
)
    requires
        call.value.eval(state, answers) == Ok::<ValueView, ErrorView>(ValueView::Timestamp(at)),
    ensures
        call.eval(state, answers) == Ok::<ValueView, ErrorView>(ValueView::Timestamp(at)),
{
}

/// A value that is neither bytes nor a timestamp makes the call fail,
/// whatever the format is.
pub proof fn lemma_other_values_fail(
    call: ParseTimestampFn,
    state: ProgramView,
    answers: Answers,
    value: ValueView,
)
    requires
        call.value.eval(state, answers) == Ok::<ValueView, ErrorView>(value),
        !readable().contains(value.variant()),
    ensures
        call.eval(state, answers) == Err::<ValueView, ErrorView>(ErrorView::NotTimestamp),
{
}

/// The call is declared to give timestamps only. It is declared fallible
/// exactly when the node for the value is, or when that node may give a
/// variant other than bytes and timestamp.
pub proof fn lemma_parse_timestamp_type(call: ParseTimestampFn, state: CompilerView)
    ensures
        call.type_of(state).kind == set![Variant::Timestamp],
        call.type_of(state).fallible <==> (call.value.type_of(state).fallible
            || !call.value.type_of(state).kind.subset_of(readable())),
{
}

/// On a node that is declared to give timestamps only and never to fail,
/// the call is declared never to fail.
pub proof fn lemma_timestamp_input_infallible(call: ParseTimestampFn, state: CompilerView)
    requires
        call.value.type_of(state) == (TypeDefView {
            fallible: false,
            kind: set![Variant::Timestamp],
        }),
    ensures
        !call.type_of(state).fallible,
{
    assert(set![Variant::Timestamp].subset_of(readable()));
}

/// On a node that may give a variant other than bytes and timestamp, the
/// call is declared fallible.
pub proof fn lemma_unreadable_input_fallible(
    call: ParseTimestampFn,
    state: CompilerView,
    variant: Variant,
)
    requires
        call.value.type_of(state).kind.contains(variant),
        !readable().contains(variant),
    ensures
        call.type_of(state).fallible,
{
}

/// The specifier that the call builds always names a rule: the one for
/// the format taken as text.
pub proof fn lemma_specifier_names_rule(format: Seq<u8>)
    ensures
        rule_named(specifier_of(format)) == Ok::<ConversionView, ErrorView>(
            rule_for(lossy_text(format)),
        ),
{
    lemma_rule_of_prefixed(lossy_text(format));
}

} // verus!

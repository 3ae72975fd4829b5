//! The two states that accompany a program: one while its types are
//! inferred, one while it is executed.

use vstd::prelude::*;
use crate::mapping::{entry_value, find, lemma_key_from, lemma_key_is, lemma_key_none};
use crate::text::same_text;
use crate::type_def::{TypeDef, TypeDefView};
use crate::value::{entry_views_of, Entry, EntryView, Value, ValueView};

verus! {

/// The mathematical content of a [`Program`]: the bindings of its
/// variables, the latest first.
pub struct ProgramView {
    pub variables: Seq<EntryView>,
}

impl ProgramView {
    /// The value bound to the variable called `name`.
    pub open spec fn variable(self, name: Seq<char>) -> Option<ValueView> {
        find(self.variables, name)
    }
}

/// The state that lives while a program is executed against one target:
/// the values bound to its variables.
#[derive(Debug, PartialEq, Eq)]
pub struct Program {
    variables: Vec<Entry>,
}

impl View for Program {
    type V = ProgramView;

    closed spec fn view(&self) -> ProgramView {
        ProgramView { variables: entry_views_of(self.variables@) }
    }
}

impl Default for Program {
    /// The state in which no variable is bound.
    fn default() -> (p: Program)
        ensures
            p@.variables == Seq::<EntryView>::empty(),
    {
        Program::new()
    }
}

impl Program {
    /// The state in which no variable is bound.
    pub fn new() -> (p: Program)
        ensures
            p@.variables == Seq::<EntryView>::empty(),
    {
        let p = Program { variables: Vec::new() };
        proof {
            assert(p@.variables =~= Seq::<EntryView>::empty());
        }
        p
    }

    /// The value bound to the variable called `name`.
    pub fn variable(&self, name: &str) -> (r: Option<&Value>)
        ensures
            match r {
                Some(v) => self@.variable(name@) == Some(v@),
                None => self@.variable(name@) is None,
            },
    {
        entry_value(&self.variables, name)
    }

    /// Binds the variable called `name` to `value`. An earlier binding of
    /// the same name is shadowed.
    pub fn bind(&mut self, name: &str, value: Value)
        ensures
            final(self)@.variables == seq![EntryView { key: name@, value: value@ }]
                + old(self)@.variables,
            forall|other: Seq<char>|
                final(self)@.variable(other) == if other == name@ {
                    Some(value@)
                } else {
                    old(self)@.variable(other)
                },
    {
        let ghost before = entry_views_of(self.variables@);
        self.variables.insert(0, Entry { key: name.to_owned(), value });
        proof {
            let after = entry_views_of(self.variables@);
            assert(after =~= seq![EntryView { key: name@, value: value@ }] + before);
            assert forall|other: Seq<char>| find(after, other) == if other == name@ {
                Some(value@)
            } else {
                find(before, other)
            } by {
                lemma_key_from(before, other, 0);
                if other == name@ {
                    lemma_key_is(after, other, 0, 0);
                } else {
                    match crate::mapping::key_index(before, other) {
                        Some(at) => {
                            assert forall|j: int| 0 <= j < at + 1 implies (#[trigger] after[j]).key
                                != other by {
                                if j > 0 {
                                    assert(after[j] == before[j - 1]);
                                }
                            }
                            assert(after[at + 1] == before[at]);
                            lemma_key_is(after, other, 0, at + 1);
                        },
                        None => {
                            assert forall|j: int| 0 <= j < after.len() implies (
                            #[trigger] after[j]).key != other by {
                                if j > 0 {
                                    assert(after[j] == before[j - 1]);
                                }
                            }
                            lemma_key_none(after, other, 0);
                        },
                    }
                }
            }
        }
    }
}

/// The mathematical content of a declared variable.
pub struct DeclarationView {
    pub name: Seq<char>,
    pub type_def: TypeDefView,
}

/// A variable and the type definition declared for it.
#[derive(Debug, PartialEq, Eq)]
pub struct Declaration {
    pub name: String,
    pub type_def: TypeDef,
}

impl View for Declaration {
    type V = DeclarationView;

    open spec fn view(&self) -> DeclarationView {
        DeclarationView { name: self.name@, type_def: self.type_def@ }
    }
}

/// The type definition declared for `name`: that of the first declaration
/// with this name.
pub open spec fn declared(rows: Seq<DeclarationView>, name: Seq<char>) -> Option<TypeDefView>
    decreases rows.len(),
{
    if rows.len() == 0 {
        None
    } else if rows[0].name == name {
        Some(rows[0].type_def)
    } else {
        declared(rows.skip(1), name)
    }
}

/// The mathematical content of a [`Compiler`]: the declarations, the
/// latest first.
pub struct CompilerView {
    pub declarations: Seq<DeclarationView>,
}

impl CompilerView {
    /// The type definition declared for the variable called `name`.
    pub open spec fn variable_type(self, name: Seq<char>) -> Option<TypeDefView> {
        declared(self.declarations, name)
    }
}

/// The state that lives while the types of a program are inferred: the
/// type definitions declared for its variables.
#[derive(Debug, PartialEq, Eq)]
pub struct Compiler {
    declarations: Vec<Declaration>,
}

impl View for Compiler {
    type V = CompilerView;

    closed spec fn view(&self) -> CompilerView {
        CompilerView {
            declarations: Seq::new(
                self.declarations@.len(),
                |i: int| self.declarations@[i]@,
            ),
        }
    }
}

impl Default for Compiler {
    /// The state in which no variable is declared.
    fn default() -> (c: Compiler)
        ensures
            c@.declarations == Seq::<DeclarationView>::empty(),
    {
        Compiler::new()
    }
}

impl Compiler {
    /// The state in which no variable is declared.
    pub fn new() -> (c: Compiler)
        ensures
            c@.declarations == Seq::<DeclarationView>::empty(),
    {
        let c = Compiler { declarations: Vec::new() };
        proof {
            assert(c@.declarations =~= Seq::<DeclarationView>::empty());
        }
        c
    }

    /// The type definition declared for the variable called `name`.
    pub fn variable_type(&self, name: &str) -> (r: Option<TypeDef>)
        ensures
            match r {
                Some(t) => self@.variable_type(name@) == Some(t@),
                None => self@.variable_type(name@) is None,
            },
    {
        let ghost rows = self@.declarations;
        let mut i: usize = 0;
        proof {
            assert(rows.skip(0) =~= rows);
        }
        while i < self.declarations.len()
            invariant
                i <= self.declarations.len(),
                rows == self@.declarations,
                declared(rows, name@) == declared(rows.skip(i as int), name@),
            decreases self.declarations.len() - i,
        {
            proof {
                assert(rows.skip(i as int)[0] == rows[i as int]);
                assert(rows.skip(i as int).skip(1) =~= rows.skip(i + 1));
            }
            if same_text(self.declarations[i].name.as_str(), name) {
                return Some(self.declarations[i].type_def);
            }
            i += 1;
        }
        None
    }

    /// Declares `type_def` for the variable called `name`. An earlier
    /// declaration of the same name is shadowed.
    pub fn declare(&mut self, name: &str, type_def: TypeDef)
        ensures
            final(self)@.declarations == seq![
                DeclarationView { name: name@, type_def: type_def@ },
            ] + old(self)@.declarations,
            forall|other: Seq<char>|
                final(self)@.variable_type(other) == if other == name@ {
                    Some(type_def@)
                } else {
                    old(self)@.variable_type(other)
                },
    {
        let ghost before = self@.declarations;
        self.declarations.insert(0, Declaration { name: name.to_owned(), type_def });
        proof {
            let after = self@.declarations;
            assert(after =~= seq![DeclarationView { name: name@, type_def: type_def@ }] + before);
            assert(after.skip(1) =~= before);
        }
    }
}

} // verus!

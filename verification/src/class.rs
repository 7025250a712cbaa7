//! The built-in classes and the methods the runtime implements itself.

use vstd::prelude::*;
use crate::literal::Literal;
use crate::object::Object;

verus! {

/// A built-in type. Each has one class object per runtime, made when it is
/// first asked for.
#[derive(Clone, Copy, Debug, PartialEq, Eq, Structural, Hash)]
pub enum Class {
    Pristine,
    Basic,
    Null,
    Boolean,
    Number,
    Text,
    List,
    Function,
    BoundFunction,
    Regex,
    Scope,
}

/// How many built-in classes there are.
pub const CLASS_COUNT: usize = 11;

impl Class {
    /// The place of the class in the registry.
    pub open spec fn slot(self) -> int {
        match self {
            Class::Pristine => 0,
            Class::Basic => 1,
            Class::Null => 2,
            Class::Boolean => 3,
            Class::Number => 4,
            Class::Text => 5,
            Class::List => 6,
            Class::Function => 7,
            Class::BoundFunction => 8,
            Class::Regex => 9,
            Class::Scope => 10,
        }
    }

    /// The place of the class in the registry.
    pub fn index(self) -> (res: usize)
        ensures
            res == self.slot(),
            res < CLASS_COUNT,
    {
        match self {
            Class::Pristine => 0,
            Class::Basic => 1,
            Class::Null => 2,
            Class::Boolean => 3,
            Class::Number => 4,
            Class::Text => 5,
            Class::List => 6,
            Class::Function => 7,
            Class::BoundFunction => 8,
            Class::Regex => 9,
            Class::Scope => 10,
        }
    }

    /// The class a class inherits from. The base class has none: its class
    /// object is its own parent.
    pub open spec fn base(self) -> Option<Class> {
        match self {
            Class::Pristine => None,
            Class::Basic => Some(Class::Pristine),
            Class::BoundFunction => Some(Class::Function),
            _ => Some(Class::Basic),
        }
    }

    /// The class a class inherits from.
    pub fn parent(self) -> (res: Option<Class>)
        ensures
            res == self.base(),
    {
        match self {
            Class::Pristine => None,
            Class::Basic => Some(Class::Pristine),
            Class::BoundFunction => Some(Class::Function),
            _ => Some(Class::Basic),
        }
    }

    /// How many classes lie between a class and the base class.
    pub open spec fn rank(self) -> nat {
        match self {
            Class::Pristine => 0,
            Class::Basic => 1,
            Class::BoundFunction => 3,
            _ => 2,
        }
    }

    /// The name of the class, as its class object carries it.
    pub open spec fn title(self) -> Seq<char> {
        match self {
            Class::Pristine => "Pristine"@,
            Class::Basic => "Basic"@,
            Class::Null => "Null"@,
            Class::Boolean => "Boolean"@,
            Class::Number => "Number"@,
            Class::Text => "Text"@,
            Class::List => "List"@,
            Class::Function => "Function"@,
            Class::BoundFunction => "BoundFunction"@,
            Class::Regex => "Regex"@,
            Class::Scope => "Scope"@,
        }
    }

    /// The name of the class.
    pub fn name(self) -> (res: &'static str)
        ensures
            res@ == self.title(),
    {
        match self {
            Class::Pristine => "Pristine",
            Class::Basic => "Basic",
            Class::Null => "Null",
            Class::Boolean => "Boolean",
            Class::Number => "Number",
            Class::Text => "Text",
            Class::List => "List",
            Class::Function => "Function",
            Class::BoundFunction => "BoundFunction",
            Class::Regex => "Regex",
            Class::Scope => "Scope",
        }
    }
}

/// A method the runtime implements itself. It is called with a receiver and
/// the remaining arguments.
#[derive(Clone, Copy, Debug, PartialEq, Eq, Structural, Hash)]
pub enum Builtin {
    PristineInspect,
    PristineKeys,
    PristineCallAttr,
    PristineGetAttr,
    PristineSetAttr,
    PristineHasAttr,
    PristineDelAttr,
    PristineDotGetAttr,
    PristineDotGetAttrQ,
    PristineInstanceExec,
    PristineInstanceJump,
    PristineRootGetAttr,
    FunctionCall,
    BoundFunctionCall,
    RegexAtText,
    RegexInspect,
    RegexEql,
    RegexDoesMatch,
    RegexMatch,
}

/// What a callable object holds.
#[derive(Clone, Copy, Debug, PartialEq, Eq, Structural, Hash)]
pub enum Function {
    /// A method of the runtime.
    Native(Builtin),
    /// A method that reads one attribute of its receiver.
    Reader(Literal),
    /// A function that yields one object whatever it is given.
    Constant(Object),
}

impl Class {
    /// The methods that the class object of a class is given when the
    /// class is initialized: each name with the method it stands for.
    pub open spec fn methods(self) -> Seq<(Seq<char>, Builtin)> {
        match self {
            Class::Pristine => seq![
                ("inspect"@, Builtin::PristineInspect),
                ("__keys__"@, Builtin::PristineKeys),
                ("__call_attr__"@, Builtin::PristineCallAttr),
                ("__get_attr__"@, Builtin::PristineGetAttr),
                ("__set_attr__"@, Builtin::PristineSetAttr),
                ("__has_attr__"@, Builtin::PristineHasAttr),
                ("__del_attr__"@, Builtin::PristineDelAttr),
                ("::"@, Builtin::PristineGetAttr),
                (".="@, Builtin::PristineSetAttr),
                ("."@, Builtin::PristineDotGetAttr),
                (".?"@, Builtin::PristineDotGetAttrQ),
                ("instance_exec"@, Builtin::PristineInstanceExec),
                ("instance_jump"@, Builtin::PristineInstanceJump),
                ("::@"@, Builtin::PristineRootGetAttr),
            ],
            Class::Function => seq![("call"@, Builtin::FunctionCall)],
            Class::BoundFunction => seq![("call"@, Builtin::BoundFunctionCall)],
            Class::Regex => seq![
                ("@text"@, Builtin::RegexAtText),
                ("inspect"@, Builtin::RegexInspect),
                ("=="@, Builtin::RegexEql),
                ("does_match"@, Builtin::RegexDoesMatch),
                ("match"@, Builtin::RegexMatch),
            ],
            _ => Seq::empty(),
        }
    }

    /// How many methods the class has.
    pub fn method_count(self) -> (res: usize)
        ensures
            res == self.methods().len(),
    {
        match self {
            Class::Pristine => 14,
            Class::Function => 1,
            Class::BoundFunction => 1,
            Class::Regex => 5,
            _ => 0,
        }
    }

    /// The method at place `i` of the class.
    pub fn method_at(self, i: usize) -> (res: (&'static str, Builtin))
        requires
            i < self.methods().len(),
        ensures
            res.0@ == self.methods()[i as int].0,
            res.1 == self.methods()[i as int].1,
    {
        match self {
            Class::Pristine => {
                if i == 0 {
                    ("inspect", Builtin::PristineInspect)
                } else if i == 1 {
                    ("__keys__", Builtin::PristineKeys)
                } else if i == 2 {
                    ("__call_attr__", Builtin::PristineCallAttr)
                } else if i == 3 {
                    ("__get_attr__", Builtin::PristineGetAttr)
                } else if i == 4 {
                    ("__set_attr__", Builtin::PristineSetAttr)
                } else if i == 5 {
                    ("__has_attr__", Builtin::PristineHasAttr)
                } else if i == 6 {
                    ("__del_attr__", Builtin::PristineDelAttr)
                } else if i == 7 {
                    ("::", Builtin::PristineGetAttr)
                } else if i == 8 {
                    (".=", Builtin::PristineSetAttr)
                } else if i == 9 {
                    (".", Builtin::PristineDotGetAttr)
                } else if i == 10 {
                    (".?", Builtin::PristineDotGetAttrQ)
                } else if i == 11 {
                    ("instance_exec", Builtin::PristineInstanceExec)
                } else if i == 12 {
                    ("instance_jump", Builtin::PristineInstanceJump)
                } else {
                    ("::@", Builtin::PristineRootGetAttr)
                }
            },
            Class::Function => ("call", Builtin::FunctionCall),
            Class::BoundFunction => ("call", Builtin::BoundFunctionCall),
            Class::Regex => {
                if i == 0 {
                    ("@text", Builtin::RegexAtText)
                } else if i == 1 {
                    ("inspect", Builtin::RegexInspect)
                } else if i == 2 {
                    ("==", Builtin::RegexEql)
                } else if i == 3 {
                    ("does_match", Builtin::RegexDoesMatch)
                } else {
                    ("match", Builtin::RegexMatch)
                }
            },
            _ => ("", Builtin::PristineInspect),
        }
    }
}


/// No class has two methods of one name.
pub proof fn method_names_distinct(c: Class)
    ensures
        forall|i: int, j: int|
            0 <= i < c.methods().len() && 0 <= j < c.methods().len() && i != j
                ==> c.methods()[i].0 != c.methods()[j].0,
{
    reveal_strlit("inspect");
    reveal_strlit("__keys__");
    reveal_strlit("__call_attr__");
    reveal_strlit("__get_attr__");
    reveal_strlit("__set_attr__");
    reveal_strlit("__has_attr__");
    reveal_strlit("__del_attr__");
    reveal_strlit("::");
    reveal_strlit(".=");
    reveal_strlit(".");
    reveal_strlit(".?");
    reveal_strlit("instance_exec");
    reveal_strlit("instance_jump");
    reveal_strlit("::@");
    reveal_strlit("call");
    reveal_strlit("@text");
    reveal_strlit("==");
    reveal_strlit("does_match");
    reveal_strlit("match");
    let m = c.methods();
    match c {
        Class::Pristine => {
            assert(m[0].0.len() == 7);
            assert(m[1].0.len() == 8);
            assert(m[2].0.len() == 13 && m[2].0[0] == '_');
            assert(m[3].0.len() == 12 && m[3].0[2] == 'g');
            assert(m[4].0.len() == 12 && m[4].0[2] == 's');
            assert(m[5].0.len() == 12 && m[5].0[2] == 'h');
            assert(m[6].0.len() == 12 && m[6].0[2] == 'd');
            assert(m[7].0.len() == 2 && m[7].0[0] == ':');
            assert(m[8].0.len() == 2 && m[8].0[0] == '.' && m[8].0[1] == '=');
            assert(m[9].0.len() == 1);
            assert(m[10].0.len() == 2 && m[10].0[0] == '.' && m[10].0[1] == '?');
            assert(m[11].0.len() == 13 && m[11].0[0] == 'i' && m[11].0[9] == 'e');
            assert(m[12].0.len() == 13 && m[12].0[0] == 'i' && m[12].0[9] == 'j');
            assert(m[13].0.len() == 3);
            assert forall|i: int, j: int| 0 <= i < m.len() && 0 <= j < m.len() && i != j implies m[i].0
                != m[j].0 by {
                if m[i].0 == m[j].0 {
                    assert(m[i].0.len() == m[j].0.len());
                    assert(m[i].0[0] == m[j].0[0]);
                    if m[i].0.len() == 2 {
                        assert(m[i].0[1] == m[j].0[1]);
                    }
                    if m[i].0.len() == 12 {
                        assert(m[i].0[2] == m[j].0[2]);
                    }
                    if m[i].0.len() == 13 {
                        assert(m[i].0[9] == m[j].0[9]);
                    }
                }
            }
        },
        Class::Regex => {
            assert(m[0].0.len() == 5 && m[0].0[0] == '@');
            assert(m[1].0.len() == 7);
            assert(m[2].0.len() == 2);
            assert(m[3].0.len() == 10);
            assert(m[4].0.len() == 5 && m[4].0[0] == 'm');
            assert forall|i: int, j: int| 0 <= i < m.len() && 0 <= j < m.len() && i != j implies m[i].0
                != m[j].0 by {
                if m[i].0 == m[j].0 {
                    assert(m[i].0.len() == m[j].0.len());
                    assert(m[i].0[0] == m[j].0[0]);
                }
            }
        },
        _ => {},
    }
}

/// No class has a method called `name`: the name of the class is never
/// hidden by a method.
pub proof fn name_is_no_method(c: Class)
    ensures
        forall|i: int| 0 <= i < c.methods().len() ==> c.methods()[i].0 != "name"@,
{
    reveal_strlit("name");
    reveal_strlit("inspect");
    reveal_strlit("__keys__");
    reveal_strlit("__call_attr__");
    reveal_strlit("__get_attr__");
    reveal_strlit("__set_attr__");
    reveal_strlit("__has_attr__");
    reveal_strlit("__del_attr__");
    reveal_strlit("::");
    reveal_strlit(".=");
    reveal_strlit(".");
    reveal_strlit(".?");
    reveal_strlit("instance_exec");
    reveal_strlit("instance_jump");
    reveal_strlit("::@");
    reveal_strlit("call");
    reveal_strlit("@text");
    reveal_strlit("==");
    reveal_strlit("does_match");
    reveal_strlit("match");
    let m = c.methods();
    assert("name"@.len() == 4 && "name"@[0] == 'n');
    assert forall|i: int| 0 <= i < m.len() implies m[i].0 != "name"@ by {
        if m[i].0 == "name"@ {
            assert(m[i].0.len() == 4);
            assert(m[i].0[0] == 'n');
        }
    }
}

} // verus!

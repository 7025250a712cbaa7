//! Attribute names, interned, and the names the runtime reserves.

use vstd::prelude::*;

verus! {

/// An interned attribute name: the place of its text in the runtime's
/// symbol table. Two literals of one runtime are equal exactly when their
/// texts are.
#[derive(Clone, Copy, Debug, PartialEq, Eq, Structural, Hash)]
pub struct Literal {
    pub index: usize,
}

/// `id`: the identity of an object, which no write can change.
pub const ID: usize = 0;

/// `parents`: the ordered parents of an object.
pub const PARENTS: usize = 1;

/// `this`: the owner of the active frame.
pub const THIS: usize = 2;

/// `stack`: the owners of all active frames, the active one first.
pub const STACK: usize = 3;

/// `attr_missing`: the hook asked before the parents are searched.
pub const ATTR_MISSING: usize = 4;

/// `call`: the entry point through which a value is invoked.
pub const CALL: usize = 5;

/// `call_noscope`: the entry point that opens no scope of its own.
pub const CALL_NOSCOPE: usize = 6;

/// `name`: the name a class carries.
pub const NAME: usize = 7;

/// `__bound_object_owner__`: the receiver a bound method remembers.
pub const BOUND_OWNER: usize = 8;

/// `__bound_object__`: the callable a bound method wraps.
pub const BOUND_OBJECT: usize = 9;

/// `@text`: the conversion of a value to text.
pub const AT_TEXT: usize = 10;

/// `@bool`: the conversion of a value to a boolean.
pub const AT_BOOL: usize = 11;

/// How many names every symbol table starts with.
pub const RESERVED: usize = 12;

/// The reserved names, each at the place its constant gives.
pub open spec fn reserved_names() -> Seq<Seq<char>> {
    seq![
        "id"@,
        "parents"@,
        "this"@,
        "stack"@,
        "attr_missing"@,
        "call"@,
        "call_noscope"@,
        "name"@,
        "__bound_object_owner__"@,
        "__bound_object__"@,
        "@text"@,
        "@bool"@,
    ]
}

/// Whether reading `key` is answered by the runtime itself, without a look
/// at any store.
pub open spec fn is_special(key: Literal) -> bool {
    key.index == ID || key.index == PARENTS || key.index == THIS || key.index == STACK
}

/// The reserved names differ from one another.
pub proof fn reserved_names_distinct()
    ensures
        reserved_names().len() == RESERVED,
        reserved_names().no_duplicates(),
{
    reveal_strlit("id");
    reveal_strlit("parents");
    reveal_strlit("this");
    reveal_strlit("stack");
    reveal_strlit("attr_missing");
    reveal_strlit("call");
    reveal_strlit("call_noscope");
    reveal_strlit("name");
    reveal_strlit("__bound_object_owner__");
    reveal_strlit("__bound_object__");
    reveal_strlit("@text");
    reveal_strlit("@bool");
    let names = reserved_names();
    assert(names[0].len() == 2);
    assert(names[1].len() == 7);
    assert(names[2].len() == 4 && names[2][0] == 't');
    assert(names[3].len() == 5);
    assert(names[4].len() == 12 && names[4][0] == 'a');
    assert(names[5].len() == 4 && names[5][0] == 'c');
    assert(names[6].len() == 12 && names[6][0] == 'c');
    assert(names[7].len() == 4 && names[7][0] == 'n');
    assert(names[8].len() == 22);
    assert(names[9].len() == 16);
    assert(names[10].len() == 5 && names[10][0] == '@' && names[10][1] == 't');
    assert(names[11].len() == 5 && names[11][0] == '@' && names[11][1] == 'b');
    assert forall|i: int, j: int| 0 <= i < names.len() && 0 <= j < names.len() && i != j implies names[i] != names[j] by {
        if names[i] == names[j] {
            assert(names[i].len() == names[j].len());
            assert(names[i][0] == names[j][0]);
            assert(names[i][1] == names[j][1]);
        }
    }
}

} // verus!

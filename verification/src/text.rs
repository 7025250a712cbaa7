//! Text values and the decimal rendering of identities.

use vstd::prelude::*;
use vstd::string::StringExecFns;

verus! {

/// A piece of text, as the runtime stores it in an object.
#[derive(Debug)]
pub struct Text {
    pub data: String,
}

impl View for Text {
    type V = Seq<char>;

    open spec fn view(&self) -> Seq<char> {
        self.data@
    }
}

/// Two texts are equal when they hold the same characters.
impl PartialEq for Text {
    fn eq(&self, other: &Text) -> (res: bool) {
        self.data == other.data
    }
}

impl Eq for Text {

}

impl vstd::std_specs::cmp::PartialEqSpecImpl for Text {
    open spec fn obeys_eq_spec() -> bool {
        true
    }

    open spec fn eq_spec(&self, other: &Text) -> bool {
        self@ == other@
    }
}

impl Clone for Text {
    fn clone(&self) -> (res: Text)
        ensures
            res@ == self@,
    {
        Text { data: self.data.clone() }
    }
}

impl Text {
    /// Wraps an owned string.
    pub fn new(data: String) -> (res: Text)
        ensures
            res@ == data@,
    {
        Text { data }
    }

    /// Copies a string slice.
    pub fn from_str(s: &str) -> (res: Text)
        ensures
            res@ == s@,
    {
        Text { data: String::from_str(s) }
    }

    /// The characters of the text.
    pub fn as_str(&self) -> (res: &str)
        ensures
            res@ == self@,
    {
        self.data.as_str()
    }

    /// The name under which text values are known.
    pub fn typename() -> (res: &'static str)
        ensures
            res@ == "Text"@,
    {
        "Text"
    }
}

/// The character that stands for one decimal digit.
pub open spec fn digit_char(d: nat) -> char {
    if d == 0 {
        '0'
    } else if d == 1 {
        '1'
    } else if d == 2 {
        '2'
    } else if d == 3 {
        '3'
    } else if d == 4 {
        '4'
    } else if d == 5 {
        '5'
    } else if d == 6 {
        '6'
    } else if d == 7 {
        '7'
    } else if d == 8 {
        '8'
    } else {
        '9'
    }
}

/// The decimal numeral of `n`, most significant digit first, without
/// leading zeros.
pub open spec fn decimal(n: nat) -> Seq<char>
    decreases n,
{
    if n < 10 {
        seq![digit_char(n)]
    } else {
        decimal(n / 10).push(digit_char(n % 10))
    }
}

fn digit_str(d: usize) -> (res: &'static str)
    requires
        d < 10,
    ensures
        res@ == seq![digit_char(d as nat)],
{
    proof {
        reveal_strlit("0");
        reveal_strlit("1");
        reveal_strlit("2");
        reveal_strlit("3");
        reveal_strlit("4");
        reveal_strlit("5");
        reveal_strlit("6");
        reveal_strlit("7");
        reveal_strlit("8");
        reveal_strlit("9");
    }
    let res = if d == 0 {
        "0"
    } else if d == 1 {
        "1"
    } else if d == 2 {
        "2"
    } else if d == 3 {
        "3"
    } else if d == 4 {
        "4"
    } else if d == 5 {
        "5"
    } else if d == 6 {
        "6"
    } else if d == 7 {
        "7"
    } else if d == 8 {
        "8"
    } else {
        "9"
    };
    assert(res@ =~= seq![digit_char(d as nat)]);
    res
}

/// Appends the decimal numeral of `n` to `out`.
pub fn push_decimal(out: &mut String, n: usize)
    ensures
        final(out)@ == old(out)@ + decimal(n as nat),
    decreases n,
{
    if n >= 10 {
        push_decimal(out, n / 10);
    }
    out.append(digit_str(n % 10));
    proof {
        if n >= 10 {
            assert(old(out)@ + decimal((n / 10) as nat) + seq![digit_char((n % 10) as nat)]
                =~= old(out)@ + decimal((n / 10) as nat).push(digit_char((n % 10) as nat)));
        }
    }
}

} // verus!

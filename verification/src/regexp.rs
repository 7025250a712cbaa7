//! Regular expressions as values of the runtime. Compiling and matching
//! are the work of the `regex` crate; what it answers is named here and
//! taken on trust.

use vstd::prelude::*;
use vstd::string::StringExecFns;
use crate::class::Class;
use crate::dispatch::try_arg;
use crate::error::RuntimeError;
use crate::object::Object;
use crate::object::Payload;
use crate::runtime::Runtime;
use crate::semantics::regex_of;
use crate::semantics::sem_group_objects;
use crate::semantics::sem_regex_at_text;
use crate::semantics::sem_regex_does_match;
use crate::semantics::sem_regex_eql;
use crate::semantics::sem_regex_match;
use crate::semantics::sem_text_of;
use crate::text::Text;
use crate::wellformed::ok_grows;

verus! {

/// One switch of a pattern.
#[derive(Clone, Copy, Debug, PartialEq, Eq, Structural, Hash)]
pub enum Flag {
    /// `i`: letters match both cases.
    CaseInsensitive,
    /// `m`: `^` and `$` match at line breaks.
    MultiLine,
    /// `s`: `.` matches a line break too.
    DotMatchesNewLine,
    /// `U`: greedy and lazy repetition change places.
    SwapGreed,
    /// `x`: white space and comments in the pattern are skipped.
    IgnoreWhitespace,
}

/// The switches a pattern is compiled with.
#[derive(Clone, Copy, Debug, PartialEq, Eq, Structural, Hash)]
pub struct Flags {
    pub case_insensitive: bool,
    pub multi_line: bool,
    pub dot_matches_new_line: bool,
    pub swap_greed: bool,
    pub ignore_whitespace: bool,
}

impl Default for Flags {
    fn default() -> (res: Flags)
        ensures
            res == Flags::none(),
    {
        Flags {
            case_insensitive: false,
            multi_line: false,
            dot_matches_new_line: false,
            swap_greed: false,
            ignore_whitespace: false,
        }
    }
}

impl Flags {
    /// No switch set.
    pub open spec fn none() -> Flags {
        Flags {
            case_insensitive: false,
            multi_line: false,
            dot_matches_new_line: false,
            swap_greed: false,
            ignore_whitespace: false,
        }
    }

    /// Whether `flag` is set.
    pub open spec fn has(self, flag: Flag) -> bool {
        match flag {
            Flag::CaseInsensitive => self.case_insensitive,
            Flag::MultiLine => self.multi_line,
            Flag::DotMatchesNewLine => self.dot_matches_new_line,
            Flag::SwapGreed => self.swap_greed,
            Flag::IgnoreWhitespace => self.ignore_whitespace,
        }
    }

    /// The flags with `flag` set too.
    pub open spec fn plus(self, flag: Flag) -> Flags {
        match flag {
            Flag::CaseInsensitive => Flags { case_insensitive: true, ..self },
            Flag::MultiLine => Flags { multi_line: true, ..self },
            Flag::DotMatchesNewLine => Flags { dot_matches_new_line: true, ..self },
            Flag::SwapGreed => Flags { swap_greed: true, ..self },
            Flag::IgnoreWhitespace => Flags { ignore_whitespace: true, ..self },
        }
    }

    /// The letters of the set switches, in the order `i m s U x`.
    pub open spec fn letters(self) -> Seq<char> {
        (if self.case_insensitive { seq!['i'] } else { Seq::empty() })
        + (if self.multi_line { seq!['m'] } else { Seq::empty() })
        + (if self.dot_matches_new_line { seq!['s'] } else { Seq::empty() })
        + (if self.swap_greed { seq!['U'] } else { Seq::empty() })
        + (if self.ignore_whitespace { seq!['x'] } else { Seq::empty() })
    }

    /// Whether `flag` is set.
    pub fn contains(&self, flag: Flag) -> (res: bool)
        ensures
            res == self.has(flag),
    {
        match flag {
            Flag::CaseInsensitive => self.case_insensitive,
            Flag::MultiLine => self.multi_line,
            Flag::DotMatchesNewLine => self.dot_matches_new_line,
            Flag::SwapGreed => self.swap_greed,
            Flag::IgnoreWhitespace => self.ignore_whitespace,
        }
    }

    /// The flags with `flag` set too.
    pub fn with(self, flag: Flag) -> (res: Flags)
        ensures
            res == self.plus(flag),
    {
        match flag {
            Flag::CaseInsensitive => Flags { case_insensitive: true, ..self },
            Flag::MultiLine => Flags { multi_line: true, ..self },
            Flag::DotMatchesNewLine => Flags { dot_matches_new_line: true, ..self },
            Flag::SwapGreed => Flags { swap_greed: true, ..self },
            Flag::IgnoreWhitespace => Flags { ignore_whitespace: true, ..self },
        }
    }

    /// Appends the letters of the set switches to `out`.
    pub fn push_letters(&self, out: &mut String)
        ensures
            final(out)@ == old(out)@ + self.letters(),
    {
        proof {
            reveal_strlit("i");
            reveal_strlit("m");
            reveal_strlit("s");
            reveal_strlit("U");
            reveal_strlit("x");
        }
        let ghost start = out@;
        if self.case_insensitive {
            out.append("i");
            assert("i"@ =~= seq!['i']);
        }
        if self.multi_line {
            out.append("m");
            assert("m"@ =~= seq!['m']);
        }
        if self.dot_matches_new_line {
            out.append("s");
            assert("s"@ =~= seq!['s']);
        }
        if self.swap_greed {
            out.append("U");
            assert("U"@ =~= seq!['U']);
        }
        if self.ignore_whitespace {
            out.append("x");
            assert("x"@ =~= seq!['x']);
        }
        assert(out@ =~= start + self.letters());
    }
}

/// `regex::Error`, the error of the `regex` crate for a pattern it does
/// not accept. Nothing is claimed of its content.
#[verifier::external_type_specification]
#[verifier::external_body]
pub struct ExRegexFailure(regex::Error);

/// Why a pattern was refused.
#[derive(Debug)]
pub struct RegexError {
    pub source: regex::Error,
}

/// Whether the `regex` crate accepts `pattern` under `flags`.
pub uninterp spec fn regex_compiles(pattern: Seq<char>, flags: Flags) -> bool;

/// Whether `pattern`, compiled under `flags`, matches somewhere in `text`.
pub uninterp spec fn regex_is_match(pattern: Seq<char>, flags: Flags, text: Seq<char>) -> bool;

/// The groups of the first match of `pattern`, compiled under `flags`, in
/// `text`: the whole match first, then each group in the order of its
/// opening bracket, `None` for a group that took no part. `None` where
/// nothing matches.
pub uninterp spec fn regex_captures(pattern: Seq<char>, flags: Flags, text: Seq<char>) -> Option<
    Seq<Option<Seq<char>>>,
>;

/// The groups of a match as contracts see them.
pub open spec fn group_views(groups: Seq<Option<String>>) -> Seq<Option<Seq<char>>> {
    Seq::new(
        groups.len(),
        |i: int|
            match groups[i] {
                Some(t) => Some(t@),
                None => None,
            },
    )
}

/// Hands `pattern` to `regex::RegexBuilder::new`, sets the five switches
/// of `flags`, calls `regex::RegexBuilder::build` and drops the compiled
/// expression. Trusted: the call succeeds exactly on the patterns that
/// `regex_compiles` names.
#[verifier::external_body]
fn check_pattern(pattern: &str, flags: Flags) -> (res: Result<(), regex::Error>)
    ensures
        res is Ok <==> regex_compiles(pattern@, flags),
{
    regex::RegexBuilder::new(pattern)
        .case_insensitive(flags.case_insensitive)
        .multi_line(flags.multi_line)
        .dot_matches_new_line(flags.dot_matches_new_line)
        .swap_greed(flags.swap_greed)
        .ignore_whitespace(flags.ignore_whitespace)
        .build()
        .map(|_| ())
}

/// Compiles `pattern` under `flags` as `check_pattern` does and calls
/// `regex::Regex::is_match` on `text`. Trusted: `None` exactly where the
/// pattern does not compile, else the answer, which `regex_is_match`
/// names.
#[verifier::external_body]
fn pattern_is_match(pattern: &str, flags: Flags, text: &str) -> (res: Option<bool>)
    ensures
        res is Some <==> regex_compiles(pattern@, flags),
        res matches Some(b) ==> b == regex_is_match(pattern@, flags, text@),
{
    let built = regex::RegexBuilder::new(pattern)
        .case_insensitive(flags.case_insensitive)
        .multi_line(flags.multi_line)
        .dot_matches_new_line(flags.dot_matches_new_line)
        .swap_greed(flags.swap_greed)
        .ignore_whitespace(flags.ignore_whitespace)
        .build();
    match built {
        Ok(re) => Some(re.is_match(text)),
        Err(_) => None,
    }
}

/// Compiles `pattern` under `flags` as `check_pattern` does, calls
/// `regex::Regex::captures` on `text` and copies the text of each group
/// that `regex::Captures::iter` hands out. Trusted: `None` exactly where
/// the pattern does not compile, else the groups, which `regex_captures`
/// names; as the crate documents, there are groups exactly where
/// `is_match` says that there is a match, and the first of them, the whole
/// match, is always present.
#[verifier::external_body]
fn pattern_captures(pattern: &str, flags: Flags, text: &str) -> (res: Option<
    Option<Vec<Option<String>>>,
>)
    ensures
        res is Some <==> regex_compiles(pattern@, flags),
        res matches Some(found) ==> match found {
            Some(groups) => regex_captures(pattern@, flags, text@) == Some(group_views(groups@)),
            None => regex_captures(pattern@, flags, text@) is None,
        },
        res matches Some(found) ==> (found is Some <==> regex_is_match(pattern@, flags, text@)),
        res matches Some(Some(groups)) ==> groups@.len() >= 1 && groups@[0] is Some,
{
    let built = regex::RegexBuilder::new(pattern)
        .case_insensitive(flags.case_insensitive)
        .multi_line(flags.multi_line)
        .dot_matches_new_line(flags.dot_matches_new_line)
        .swap_greed(flags.swap_greed)
        .ignore_whitespace(flags.ignore_whitespace)
        .build();
    match built {
        Ok(re) => Some(
            re.captures(text).map(|c| c.iter().map(|m| m.map(|m| m.as_str().to_string())).collect()),
        ),
        Err(_) => None,
    }
}

/// A regular expression as contracts see it.
pub struct RegexView {
    pub pattern: Seq<char>,
    pub flags: Flags,
}

impl RegexView {
    /// The text of a regular expression: the pattern between slashes, then
    /// the letters of its flags.
    pub open spec fn render(self) -> Seq<char> {
        seq!['/'] + self.pattern + seq!['/'] + self.flags.letters()
    }
}

/// A pattern that compiles, and the flags it compiles under.
#[derive(Debug)]
pub struct Regex {
    pattern: String,
    flags: Flags,
}

impl View for Regex {
    type V = RegexView;

    closed spec fn view(&self) -> RegexView {
        RegexView { pattern: self.pattern@, flags: self.flags }
    }
}

/// Two regular expressions are equal when pattern and flags agree.
impl PartialEq for Regex {
    fn eq(&self, other: &Regex) -> (res: bool) {
        self.pattern == other.pattern && self.flags == other.flags
    }
}

impl Eq for Regex {

}

impl vstd::std_specs::cmp::PartialEqSpecImpl for Regex {
    open spec fn obeys_eq_spec() -> bool {
        true
    }

    open spec fn eq_spec(&self, other: &Regex) -> bool {
        self@ == other@
    }
}

impl Clone for Regex {
    fn clone(&self) -> (res: Regex)
        ensures
            res@ == self@,
    {
        proof {
            use_type_invariant(self);
        }
        Regex { pattern: self.pattern.clone(), flags: self.flags }
    }
}

impl Regex {
    #[verifier::type_invariant]
    closed spec fn compiles(&self) -> bool {
        regex_compiles(self.pattern@, self.flags)
    }

    /// A regular expression without flags. An error where the pattern does
    /// not compile.
    pub fn new(rxp: &str) -> (res: Result<Regex, RegexError>)
        ensures
            res is Ok <==> regex_compiles(rxp@, Flags::none()),
            res matches Ok(r) ==> r@ == (RegexView { pattern: rxp@, flags: Flags::none() }),
    {
        Regex::new_with_options(rxp, Flags::default())
    }

    /// A regular expression with flags. An error where the pattern does
    /// not compile under them.
    pub fn new_with_options(rxp: &str, flags: Flags) -> (res: Result<Regex, RegexError>)
        ensures
            res is Ok <==> regex_compiles(rxp@, flags),
            res matches Ok(r) ==> r@ == (RegexView { pattern: rxp@, flags }),
    {
        match check_pattern(rxp, flags) {
            Ok(_) => Ok(Regex { pattern: String::from_str(rxp), flags }),
            Err(e) => Err(RegexError { source: e }),
        }
    }

    /// The pattern as it was written.
    pub fn as_str(&self) -> (res: &str)
        ensures
            res@ == self@.pattern,
    {
        self.pattern.as_str()
    }

    /// The flags the pattern compiles under.
    pub fn flags(&self) -> (res: Flags)
        ensures
            res == self@.flags,
    {
        self.flags
    }

    /// The pattern between slashes, then the letters of the flags.
    pub fn to_text(&self) -> (res: String)
        ensures
            res@ == self@.render(),
    {
        proof {
            reveal_strlit("/");
        }
        assert("/"@ =~= seq!['/']);
        let mut out = String::from_str("/");
        out.append(self.pattern.as_str());
        out.append("/");
        self.flags.push_letters(&mut out);
        out
    }

    /// Whether the pattern matches somewhere in `text`.
    pub fn is_match(&self, text: &str) -> (res: bool)
        ensures
            res == regex_is_match(self@.pattern, self@.flags, text@),
    {
        proof {
            use_type_invariant(self);
        }
        match pattern_is_match(self.pattern.as_str(), self.flags, text) {
            Some(b) => b,
            None => false,
        }
    }

    /// The groups of the first match in `text`, `None` where nothing
    /// matches.
    pub fn captures(&self, text: &str) -> (res: Option<Vec<Option<String>>>)
        ensures
            match res {
                Some(groups) => regex_captures(self@.pattern, self@.flags, text@) == Some(
                    group_views(groups@),
                ),
                None => regex_captures(self@.pattern, self@.flags, text@) is None,
            },
            res is Some <==> regex_is_match(self@.pattern, self@.flags, text@),
            res matches Some(groups) ==> groups@.len() >= 1 && groups@[0] is Some,
    {
        proof {
            use_type_invariant(self);
        }
        match pattern_captures(self.pattern.as_str(), self.flags, text) {
            Some(found) => found,
            None => None,
        }
    }
}


impl Runtime {
    /// The regular expression that `o` carries.
    pub fn regex_of(&self, o: Object) -> (res: Result<Regex, RuntimeError>)
        requires
            self@.has(o),
        ensures
            match res {
                Ok(r) => regex_of(self@, o) == Ok::<RegexView, RuntimeError>(r@),
                Err(e) => regex_of(self@, o) == Err::<RegexView, RuntimeError>(e),
            },
    {
        match self.payload(o) {
            Payload::Regex(r) => Ok(r.clone()),
            _ => Err(RuntimeError::DowncastFailure { object: o, expected: Class::Regex }),
        }
    }

    /// One new object for each group of a match, in order: a text for a
    /// group that took part, the "no value" sentinel for one that did
    /// not.
    pub fn group_objects(&mut self, groups: &Vec<Option<String>>) -> (res: Vec<Object>)
        requires
            old(self).wf(),
        ensures
            final(self).follows(old(self)),
            final(self)@.keeps_frames(old(self)@),
            final(self)@.neutral(old(self)@),
            (final(self)@, res@) == sem_group_objects(old(self)@, group_views(groups@)),
            final(self)@.has_all(res@),
    {
        let ghost views = group_views(groups@);
        let mut res: Vec<Object> = Vec::new();
        let mut i: usize = 0;
        assert(views.take(0) =~= Seq::empty());
        while i < groups.len()
            invariant
                i <= groups@.len(),
                views == group_views(groups@),
                self.follows(old(self)),
                self@.keeps_frames(old(self)@),
                self@.neutral(old(self)@),
                (self@, res@) == sem_group_objects(old(self)@, views.take(i as int)),
                self@.has_all(res@),
            decreases groups@.len() - i,
        {
            let ghost before = self@;
            let ghost front = res@;
            let o = match &groups[i] {
                Some(t) => self.instantiate(Class::Text, Payload::Text(Text::new(t.clone()))),
                None => self.instantiate(Class::Null, Payload::Null),
            };
            res.push(o);
            proof {
                let upto = views.take(i + 1);
                assert(upto.drop_last() =~= views.take(i as int));
                assert(upto.last() == views[i as int]);
                ok_grows(before, self@);
                assert(self@.has_all(res@)) by {
                    assert forall|j: int| 0 <= j < res@.len() implies self@.has(#[trigger] res@[j]) by {
                        if j < front.len() {
                            assert(before.has(front[j]));
                        }
                    }
                }
            }
            i = i + 1;
        }
        assert(views.take(views.len() as int) =~= views);
        res
    }
}

impl Regex {
    /// `inspect` of a regular expression: its text.
    pub fn qs_inspect(rt: &mut Runtime, this: Object, args: &Vec<Object>) -> (res: Result<
        Object,
        RuntimeError,
    >)
        requires
            old(rt).wf(),
            old(rt)@.has(this),
        ensures
            final(rt).follows(old(rt)),
            final(rt)@.keeps_frames(old(rt)@),
            final(rt)@.neutral(old(rt)@),
            (final(rt)@, res) == sem_regex_at_text(old(rt)@, this),
            res matches Ok(v) ==> final(rt)@.has(v),
    {
        Regex::qs_at_text(rt, this, args)
    }

    /// `@text` of a regular expression: the pattern between slashes, then
    /// the letters of the flags.
    pub fn qs_at_text(rt: &mut Runtime, this: Object, args: &Vec<Object>) -> (res: Result<
        Object,
        RuntimeError,
    >)
        requires
            old(rt).wf(),
            old(rt)@.has(this),
        ensures
            final(rt).follows(old(rt)),
            final(rt)@.keeps_frames(old(rt)@),
            final(rt)@.neutral(old(rt)@),
            (final(rt)@, res) == sem_regex_at_text(old(rt)@, this),
            res matches Ok(v) ==> final(rt)@.has(v),
    {
        match rt.regex_of(this) {
            Ok(r) => Ok(rt.instantiate(Class::Text, Payload::Text(Text::new(r.to_text())))),
            Err(e) => Err(e),
        }
    }

    /// `==` of regular expressions: a boolean that says whether pattern
    /// and flags agree.
    pub fn qs_eql(rt: &mut Runtime, this: Object, args: &Vec<Object>) -> (res: Result<
        Object,
        RuntimeError,
    >)
        requires
            old(rt).wf(),
            old(rt)@.has(this),
            old(rt)@.has_all(args@),
        ensures
            final(rt).follows(old(rt)),
            final(rt)@.keeps_frames(old(rt)@),
            final(rt)@.neutral(old(rt)@),
            (final(rt)@, res) == sem_regex_eql(old(rt)@, this, args@),
            res matches Ok(v) ==> final(rt)@.has(v),
    {
        let rhs = match try_arg(args, 0) {
            Ok(a) => a,
            Err(e) => {
                return Err(e);
            },
        };
        let a = match rt.regex_of(this) {
            Ok(r) => r,
            Err(e) => {
                return Err(e);
            },
        };
        let b = match rt.regex_of(rhs) {
            Ok(r) => r,
            Err(e) => {
                return Err(e);
            },
        };
        Ok(rt.instantiate(Class::Boolean, Payload::Boolean(a == b)))
    }

    /// `match`: the groups of the first match of the receiver in the text
    /// of the first argument, as a list of texts with the "no value"
    /// sentinel for a group that took no part; the sentinel alone where
    /// nothing matches. It gives a list exactly where `does_match` gives
    /// `true`.
    pub fn qs_match(rt: &mut Runtime, this: Object, args: &Vec<Object>) -> (res: Result<
        Object,
        RuntimeError,
    >)
        requires
            old(rt).wf(),
            old(rt)@.has(this),
            old(rt)@.has_all(args@),
        ensures
            final(rt).follows(old(rt)),
            final(rt)@.keeps_frames(old(rt)@),
            final(rt)@.neutral(old(rt)@),
            (final(rt)@, res) == sem_regex_match(old(rt)@, this, args@, old(rt).remaining()),
            res matches Ok(v) ==> final(rt)@.has(v),
            res matches Ok(v) ==> ({
                let r = regex_of(old(rt)@, this).unwrap();
                let t = sem_text_of(old(rt)@, args@[0], old(rt).remaining()).1.unwrap();
                (final(rt)@.objects[v.id as int].payload is List) == regex_is_match(
                    r.pattern,
                    r.flags,
                    t,
                )
            }),
        decreases old(rt).remaining(), 40nat, 0nat,
    {
        let rhs = match try_arg(args, 0) {
            Ok(a) => a,
            Err(e) => {
                return Err(e);
            },
        };
        let r = match rt.regex_of(this) {
            Ok(r) => r,
            Err(e) => {
                return Err(e);
            },
        };
        let text = match rt.text_of(rhs) {
            Ok(t) => t,
            Err(e) => {
                return Err(e);
            },
        };
        match r.captures(text.as_str()) {
            None => Ok(rt.instantiate(Class::Null, Payload::Null)),
            Some(groups) => {
                let items = rt.group_objects(&groups);
                Ok(rt.instantiate(Class::List, Payload::List(items)))
            },
        }
    }

    /// `does_match`: a boolean that says whether the receiver matches
    /// somewhere in the text of the first argument.
    pub fn qs_does_match(rt: &mut Runtime, this: Object, args: &Vec<Object>) -> (res: Result<
        Object,
        RuntimeError,
    >)
        requires
            old(rt).wf(),
            old(rt)@.has(this),
            old(rt)@.has_all(args@),
        ensures
            final(rt).follows(old(rt)),
            final(rt)@.keeps_frames(old(rt)@),
            final(rt)@.neutral(old(rt)@),
            (final(rt)@, res) == sem_regex_does_match(old(rt)@, this, args@, old(rt).remaining()),
            res matches Ok(v) ==> final(rt)@.has(v),
        decreases old(rt).remaining(), 40nat, 0nat,
    {
        let rhs = match try_arg(args, 0) {
            Ok(a) => a,
            Err(e) => {
                return Err(e);
            },
        };
        let r = match rt.regex_of(this) {
            Ok(r) => r,
            Err(e) => {
                return Err(e);
            },
        };
        let text = match rt.text_of(rhs) {
            Ok(t) => t,
            Err(e) => {
                return Err(e);
            },
        };
        let found = r.is_match(text.as_str());
        Ok(rt.instantiate(Class::Boolean, Payload::Boolean(found)))
    }
}

} // verus!

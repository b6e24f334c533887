//! The expansion of paths: what a path becomes in an environment.
//!
//! A leading `~` stands for the home directory. `$NAME`, `${NAME}` and `${NAME:-DEFAULT}` stand for
//! the value of a variable, `$$` for one dollar, and any other dollar for itself.

use crate::config::opt_view;
use crate::text::{other_than, same_text};
use vstd::prelude::*;

verus! {

/// Why a variable has no value.
#[derive(Clone, Copy, PartialEq, Eq, Structural, Debug)]
pub enum Absence {
    /// It is not set.
    Unset,
    /// What it holds is not valid UTF-8.
    NotText,
}

/// A variable that is referred to and has no value.
#[derive(Debug)]
pub struct Missing {
    pub name: String,
    pub cause: Absence,
}

/// A variable of the environment.
pub struct Variable {
    pub name: String,
    /// `None` if the value is not valid UTF-8.
    pub value: Option<String>,
}

/// What paths can refer to.
pub struct Environment {
    pub home: Option<String>,
    pub variables: Vec<Variable>,
}

pub struct MissingView {
    pub name: Seq<char>,
    pub cause: Absence,
}

pub struct VariableView {
    pub name: Seq<char>,
    pub value: Option<Seq<char>>,
}

pub struct EnvironmentView {
    pub home: Option<Seq<char>>,
    pub variables: Seq<VariableView>,
}

impl View for Missing {
    type V = MissingView;

    open spec fn view(&self) -> MissingView {
        MissingView { name: self.name@, cause: self.cause }
    }
}

impl View for Variable {
    type V = VariableView;

    open spec fn view(&self) -> VariableView {
        VariableView { name: self.name@, value: opt_view(self.value) }
    }
}

/// The views of a list of variables.
pub open spec fn variable_views(variables: Seq<Variable>) -> Seq<VariableView> {
    variables.map_values(|v: Variable| v@)
}

impl View for Environment {
    type V = EnvironmentView;

    open spec fn view(&self) -> EnvironmentView {
        EnvironmentView {
            home: opt_view(self.home),
            variables: variable_views(self.variables@),
        }
    }
}

/// The view of an expansion: the expanded path, or the first variable that is missing.
pub open spec fn expansion_view(r: Result<String, Missing>) -> Result<Seq<char>, MissingView> {
    match r {
        Ok(path) => Ok(path@),
        Err(missing) => Err(missing@),
    }
}

/// The value of the variable `name`. Where it is listed more than once, the first counts.
pub open spec fn value_of(variables: Seq<VariableView>, name: Seq<char>) -> Result<
    Seq<char>,
    Absence,
>
    decreases variables.len(),
{
    if variables.len() == 0 {
        Err(Absence::Unset)
    } else if variables[0].name == name {
        match variables[0].value {
            Some(value) => Ok(value),
            None => Err(Absence::NotText),
        }
    } else {
        value_of(variables.drop_first(), name)
    }
}

/// What the machine decides about the reading of a path: which characters stand in the name of a
/// variable, and whether a backslash may follow the tilde.
pub struct Reading {
    pub in_name: spec_fn(char) -> bool,
    pub backslash: bool,
}

/// `c` is a letter or a digit of ASCII, or an underscore.
pub open spec fn is_word(c: char) -> bool {
    ||| '0' <= c <= '9'
    ||| 'A' <= c <= 'Z'
    ||| 'a' <= c <= 'z'
    ||| c == '_'
}

/// Of the characters of ASCII, those in names are the letters, the digits and the underscore.
pub open spec fn usual(reading: Reading) -> bool {
    forall|c: char| c < '\u{80}' ==> (#[trigger] (reading.in_name)(c) <==> is_word(c))
}

/// How many characters at the start of `s` satisfy `pred`.
pub open spec fn lead(s: Seq<char>, pred: spec_fn(char) -> bool) -> nat
    decreases s.len(),
{
    if s.len() > 0 && pred(s[0]) {
        1 + lead(s.drop_first(), pred)
    } else {
        0
    }
}

/// How many characters stand before the first `:-` in `s`; all of them where there is none.
pub open spec fn before_default(s: Seq<char>) -> nat
    decreases s.len(),
{
    if s.len() < 2 {
        s.len()
    } else if s[0] == ':' && s[1] == '-' {
        0
    } else {
        1 + before_default(s.drop_first())
    }
}

/// The name between braces.
pub open spec fn braced_name(inner: Seq<char>) -> Seq<char> {
    let n = before_default(inner);
    if 0 < n && n + 2 <= inner.len() {
        inner.take(n as int)
    } else {
        inner
    }
}

/// The default between braces: what follows the first `:-`, where a name stands before that.
pub open spec fn braced_default(inner: Seq<char>) -> Option<Seq<char>> {
    let n = before_default(inner);
    if 0 < n && n + 2 <= inner.len() {
        Some(inner.skip(n as int + 2))
    } else {
        None
    }
}

/// `text` before what the rest becomes.
pub open spec fn followed_by(
    text: Seq<char>,
    rest: Result<Seq<char>, MissingView>,
) -> Result<Seq<char>, MissingView> {
    match rest {
        Ok(rest) => Ok(text + rest),
        Err(missing) => Err(missing),
    }
}

/// The value of the variable `name`, or the default, before what the rest becomes. Without either,
/// the variable is missing.
pub open spec fn value_before(
    variables: Seq<VariableView>,
    name: Seq<char>,
    default: Option<Seq<char>>,
    rest: Result<Seq<char>, MissingView>,
) -> Result<Seq<char>, MissingView> {
    match value_of(variables, name) {
        Ok(value) => followed_by(value, rest),
        Err(cause) => match default {
            Some(default) => followed_by(default, rest),
            None => Err(MissingView { name, cause }),
        },
    }
}

/// `path` with each variable replaced by its value, from the left; or the first that is missing.
pub open spec fn filled(
    path: Seq<char>,
    variables: Seq<VariableView>,
    reading: Reading,
) -> Result<Seq<char>, MissingView>
    decreases path.len(),
{
    proof {
        lemma_lead(path, other_than('}'));
        lemma_lead(path.drop_first(), reading.in_name);
    }
    let close = lead(path, other_than('}'));
    let length = lead(path.drop_first(), reading.in_name);
    if path.len() == 0 {
        Ok(path)
    } else if path[0] != '$' || path.len() == 1 {
        followed_by(seq![path[0]], filled(path.drop_first(), variables, reading))
    } else if path[1] == '$' {
        followed_by(seq!['$'], filled(path.skip(2), variables, reading))
    } else if path[1] == '{' && close < path.len() {
        let inner = path.subrange(2, close as int);
        value_before(
            variables,
            braced_name(inner),
            braced_default(inner),
            filled(path.skip(close as int + 1), variables, reading),
        )
    } else if (reading.in_name)(path[1]) {
        value_before(
            variables,
            path.subrange(1, 1 + length as int),
            None,
            filled(path.skip(1 + length as int), variables, reading),
        )
    } else {
        followed_by(seq!['$'], filled(path.drop_first(), variables, reading))
    }
}

/// `path` with the home directory in the place of a leading tilde that stands alone or before a
/// slash.
pub open spec fn at_home(path: Seq<char>, home: Option<Seq<char>>, reading: Reading) -> Seq<char> {
    if path.len() > 0 && path[0] == '~' && home is Some && (path.len() == 1 || path[1] == '/'
        || reading.backslash && path[1] == '\\') {
        home->0 + path.skip(1)
    } else {
        path
    }
}

/// What `path` becomes in `environment`. A tilde that comes out of a variable is not replaced.
pub open spec fn expansion(
    path: Seq<char>,
    environment: EnvironmentView,
    reading: Reading,
) -> Result<Seq<char>, MissingView> {
    match filled(path, environment.variables, reading) {
        Ok(text) => Ok(
            if path.len() > 0 && path[0] == '~' {
                at_home(text, environment.home, reading)
            } else {
                text
            },
        ),
        Err(missing) => Err(missing),
    }
}

/// `expanded` is what `path` becomes in `environment`, by some reading.
pub open spec fn expands(
    path: Seq<char>,
    environment: EnvironmentView,
    expanded: Result<Seq<char>, MissingView>,
) -> bool {
    exists|reading: Reading|
        usual(reading) && expanded == #[trigger] expansion(path, environment, reading)
}

/// No more characters lead than there are.
pub proof fn lemma_lead(s: Seq<char>, pred: spec_fn(char) -> bool)
    ensures
        lead(s, pred) <= s.len(),
    decreases s.len(),
{
    if s.len() > 0 && pred(s[0]) {
        lemma_lead(s.drop_first(), pred);
    }
}

/// Looks up a variable.
pub fn look_up(environment: &Environment, name: &str) -> (r: Result<Option<String>, Absence>)
    ensures
        match r {
            Ok(value) => value is Some && value_of(environment@.variables, name@) == Ok::<
                Seq<char>,
                Absence,
            >(value->0@),
            Err(cause) => value_of(environment@.variables, name@) == Err::<Seq<char>, Absence>(
                cause,
            ),
        },
{
    let variables = &environment.variables;
    let ghost all = variable_views(variables@);
    let mut i: usize = 0;
    assert(all.skip(0) =~= all);
    while i < variables.len()
        invariant
            i <= variables.len(),
            variables == &environment.variables,
            all == variable_views(variables@),
            all == environment@.variables,
            value_of(all.skip(i as int), name@) == value_of(all, name@),
        decreases variables.len() - i,
    {
        assert(all.skip(i as int)[0] == variables@[i as int]@);
        assert(all.skip(i as int).drop_first() =~= all.skip(i + 1));
        if same_text(variables[i].name.as_str(), name) {
            return match &variables[i].value {
                Some(value) => Ok(Some(value.clone())),
                None => Err(Absence::NotText),
            };
        }
        i += 1;
    }
    Err(Absence::Unset)
}

/// A copy of what is missing.
pub fn copy_missing(missing: &Missing) -> (r: Missing)
    ensures
        r@ == missing@,
{
    Missing { name: missing.name.clone(), cause: missing.cause }
}

} // verus!

//! Laws of the expansion of paths.

use crate::expansion::{
    before_default, braced_default, braced_name, expands, expansion, filled, followed_by, is_word,
    lead, lemma_lead, usual, value_before, value_of, Absence, EnvironmentView, MissingView, Reading,
    VariableView,
};
use crate::text::other_than;
use vstd::prelude::*;

verus! {

/// The reading in which only characters of ASCII stand in names, and only a slash follows the tilde.
pub open spec fn standard() -> Reading {
    Reading { in_name: |c: char| is_word(c), backslash: false }
}

/// What `path` becomes in `environment` by the standard reading.
pub open spec fn standard_expansion(path: Seq<char>, environment: EnvironmentView) -> Result<
    Seq<char>,
    MissingView,
> {
    expansion(path, environment, standard())
}

/// `path` becomes the same by every reading.
pub open spec fn clear(path: Seq<char>, environment: EnvironmentView) -> bool {
    forall|reading: Reading|
        usual(reading) ==> #[trigger] expansion(path, environment, reading) == standard_expansion(
            path,
            environment,
        )
}

/// Every character is one of ASCII.
pub open spec fn ascii(path: Seq<char>) -> bool {
    forall|i: int| 0 <= i < path.len() ==> #[trigger] path[i] < '\u{80}'
}

/// With its variables filled in, the path starts with a tilde and a backslash.
pub open spec fn tilde_and_backslash(path: Seq<char>, environment: EnvironmentView) -> bool {
    &&& path.len() > 0 && path[0] == '~'
    &&& filled(path, environment.variables, standard()) matches Ok(text)
    &&& text.len() > 1 && text[1] == '\\'
}

/// A clear path has exactly one expansion in an environment.
pub proof fn law_clear_paths(
    path: Seq<char>,
    environment: EnvironmentView,
    expanded: Result<Seq<char>, MissingView>,
)
    requires
        clear(path, environment),
    ensures
        expands(path, environment, expanded) <==> expanded == standard_expansion(path, environment),
{
    assert(usual(standard()));
    assert(expansion(path, environment, standard()) == standard_expansion(path, environment));
}

/// A path of ASCII characters is clear in every environment, but for one that starts with a tilde and
/// a backslash.
pub proof fn law_ascii_is_clear(path: Seq<char>, environment: EnvironmentView)
    requires
        ascii(path),
        !tilde_and_backslash(path, environment),
    ensures
        clear(path, environment),
{
    assert forall|reading: Reading| usual(reading) implies #[trigger] expansion(
        path,
        environment,
        reading,
    ) == standard_expansion(path, environment) by {
        lemma_ascii_filled(path, environment.variables, reading);
    }
}

/// The names in a path of ASCII characters are the same by every reading.
proof fn lemma_ascii_filled(path: Seq<char>, variables: Seq<VariableView>, reading: Reading)
    requires
        ascii(path),
        usual(reading),
    ensures
        filled(path, variables, reading) == filled(path, variables, standard()),
    decreases path.len(),
{
    if path.len() > 0 {
        let close = lead(path, other_than('}'));
        let length = lead(path.drop_first(), reading.in_name);
        lemma_lead(path, other_than('}'));
        lemma_lead(path.drop_first(), reading.in_name);
        assert(forall|i: int|
            0 <= i < path.drop_first().len() ==> #[trigger] path.drop_first()[i] == path[i + 1]);
        lemma_ascii_lead(path.drop_first(), reading);
        if path[0] != '$' || path.len() == 1 {
            lemma_ascii_filled(path.drop_first(), variables, reading);
        } else if path[1] == '$' {
            lemma_ascii_filled(path.skip(2), variables, reading);
        } else if path[1] == '{' && close < path.len() {
            lemma_ascii_filled(path.skip(close as int + 1), variables, reading);
        } else if (reading.in_name)(path[1]) {
            assert(is_word(path[1]));
            lemma_ascii_filled(path.skip(1 + length as int), variables, reading);
        } else {
            assert(!is_word(path[1]));
            lemma_ascii_filled(path.drop_first(), variables, reading);
        }
    }
}

/// A name of ASCII characters is as long by every reading.
proof fn lemma_ascii_lead(s: Seq<char>, reading: Reading)
    requires
        ascii(s),
        usual(reading),
    ensures
        lead(s, reading.in_name) == lead(s, standard().in_name),
    decreases s.len(),
{
    if s.len() > 0 {
        assert((reading.in_name)(s[0]) <==> is_word(s[0]));
        lemma_ascii_lead(s.drop_first(), reading);
    }
}

/// Text without dollars is kept, and what follows it does not matter to it.
pub proof fn law_text_is_kept(
    text: Seq<char>,
    rest: Seq<char>,
    variables: Seq<VariableView>,
    reading: Reading,
)
    requires
        !text.contains('$'),
    ensures
        filled(text + rest, variables, reading) == followed_by(
            text,
            filled(rest, variables, reading),
        ),
        filled(text, variables, reading) == Ok::<Seq<char>, MissingView>(text),
    decreases text.len(),
{
    if text.len() == 0 {
        assert(text + rest =~= rest);
        assert(forall|s: Seq<char>| #[trigger] (text + s) =~= s);
    } else {
        let shorter = text.drop_first();
        assert(text[0] != '$');
        assert forall|i: int| 0 <= i < shorter.len() implies shorter[i] != '$' by {
            assert(text[i + 1] != '$');
        }
        law_text_is_kept(shorter, rest, variables, reading);
        assert((text + rest).drop_first() =~= shorter + rest);
        assert((text + rest)[0] == text[0]);
        assert(seq![text[0]] + shorter =~= text);
        if let Ok(after) = filled(rest, variables, reading) {
            assert(seq![text[0]] + (shorter + after) =~= text + after);
        }
    }
}

/// Two dollars in a row are one.
pub proof fn law_two_dollars(rest: Seq<char>, variables: Seq<VariableView>, reading: Reading)
    ensures
        filled("$$"@ + rest, variables, reading) == followed_by(
            "$"@,
            filled(rest, variables, reading),
        ),
{
    reveal_strlit("$$");
    reveal_strlit("$");
    assert(("$$"@ + rest).skip(2) =~= rest);
    assert("$"@ =~= seq!['$']);
}

/// `$NAME` is the value of the variable, whatever follows the name. Without a value, it is missing.
pub proof fn law_variable(
    name: Seq<char>,
    rest: Seq<char>,
    variables: Seq<VariableView>,
    reading: Reading,
)
    requires
        usual(reading),
        name.len() > 0,
        forall|i: int| 0 <= i < name.len() ==> is_word(#[trigger] name[i]),
        rest.len() > 0 ==> rest[0] < '\u{80}' && !is_word(rest[0]),
    ensures
        filled("$"@ + name + rest, variables, reading) == value_before(
            variables,
            name,
            None,
            filled(rest, variables, reading),
        ),
{
    reveal_strlit("$");
    let path = "$"@ + name + rest;
    assert(path.drop_first() =~= name + rest);
    lemma_lead_is(name, rest, reading);
    assert(is_word(name[0]));
    assert(path[1] == name[0]);
    assert((reading.in_name)(path[1]));
    assert(path.subrange(1, 1 + name.len() as int) =~= name);
    assert(path.skip(1 + name.len() as int) =~= rest);
}

/// A name ends where a character follows that is in none.
proof fn lemma_lead_is(name: Seq<char>, rest: Seq<char>, reading: Reading)
    requires
        usual(reading),
        forall|i: int| 0 <= i < name.len() ==> is_word(#[trigger] name[i]),
        rest.len() > 0 ==> rest[0] < '\u{80}' && !is_word(rest[0]),
    ensures
        lead(name + rest, reading.in_name) == name.len(),
    decreases name.len(),
{
    if name.len() == 0 {
        assert(name + rest =~= rest);
        if rest.len() > 0 {
            assert(!(reading.in_name)(rest[0]));
        }
    } else {
        let shorter = name.drop_first();
        assert(is_word(name[0]));
        assert((name + rest)[0] == name[0]);
        assert((reading.in_name)(name[0]));
        assert forall|i: int| 0 <= i < shorter.len() implies is_word(#[trigger] shorter[i]) by {
            assert(is_word(name[i + 1]));
        }
        lemma_lead_is(shorter, rest, reading);
        assert((name + rest).drop_first() =~= shorter + rest);
    }
}

/// `${NAME}` and `${NAME:-DEFAULT}` are the value of the variable or the default, whatever follows.
pub proof fn law_braces(
    inner: Seq<char>,
    rest: Seq<char>,
    variables: Seq<VariableView>,
    reading: Reading,
)
    requires
        !inner.contains('}'),
    ensures
        filled("${"@ + inner + "}"@ + rest, variables, reading) == value_before(
            variables,
            braced_name(inner),
            braced_default(inner),
            filled(rest, variables, reading),
        ),
{
    reveal_strlit("${");
    reveal_strlit("}");
    let path = "${"@ + inner + "}"@ + rest;
    let opened = "${"@ + inner;
    assert forall|i: int| 0 <= i < opened.len() implies opened[i] != '}' by {
        if i >= 2 {
            assert(inner[i - 2] != '}');
        }
    }
    lemma_lead_to(opened, "}"@ + rest);
    assert(path =~= opened + ("}"@ + rest));
    assert(path.subrange(2, opened.len() as int) =~= inner);
    assert(path.skip(opened.len() as int + 1) =~= rest);
}

/// The first closing brace.
proof fn lemma_lead_to(s: Seq<char>, rest: Seq<char>)
    requires
        forall|i: int| 0 <= i < s.len() ==> s[i] != '}',
        rest.len() > 0,
        rest[0] == '}',
    ensures
        lead(s + rest, other_than('}')) == s.len(),
    decreases s.len(),
{
    if s.len() == 0 {
        assert(s + rest =~= rest);
    } else {
        assert((s + rest)[0] == s[0]);
        assert((s + rest).drop_first() =~= s.drop_first() + rest);
        lemma_lead_to(s.drop_first(), rest);
    }
}

/// What stands between braces is a name, or a name, `:-` and a default.
pub proof fn law_names_and_defaults(name: Seq<char>, default: Seq<char>)
    requires
        name.len() > 0,
        !name.contains(':'),
    ensures
        braced_name(name) == name,
        braced_default(name) is None,
        braced_name(name + ":-"@ + default) == name,
        braced_default(name + ":-"@ + default) == Some(default),
{
    reveal_strlit(":-");
    lemma_before_default(name, Seq::<char>::empty());
    lemma_before_default(name, ":-"@ + default);
    assert(name + Seq::<char>::empty() =~= name);
    let inner = name + ":-"@ + default;
    assert(inner =~= name + (":-"@ + default));
    assert(inner.take(name.len() as int) =~= name);
    assert(inner.skip(name.len() as int + 2) =~= default);
}

/// No default begins before a colon.
proof fn lemma_before_default(name: Seq<char>, rest: Seq<char>)
    requires
        !name.contains(':'),
        rest.len() == 0 || rest.len() >= 2 && rest[0] == ':' && rest[1] == '-',
    ensures
        before_default(name + rest) == name.len(),
    decreases name.len(),
{
    let all = name + rest;
    if name.len() == 0 {
        assert(all =~= rest);
    } else {
        assert(name[0] != ':');
        assert(all[0] == name[0]);
        let shorter = name.drop_first();
        assert forall|i: int| 0 <= i < shorter.len() implies shorter[i] != ':' by {
            assert(name[i + 1] != ':');
        }
        lemma_before_default(shorter, rest);
        assert(all.drop_first() =~= shorter + rest);
    }
}

/// A path without dollars that does not start with a tilde stays as it is, in every environment and
/// by every reading.
pub proof fn law_plain_paths(path: Seq<char>, environment: EnvironmentView)
    requires
        !path.contains('$'),
        path.len() > 0 ==> path[0] != '~',
    ensures
        clear(path, environment),
        standard_expansion(path, environment) == Ok::<Seq<char>, MissingView>(path),
{
    assert forall|reading: Reading| usual(reading) implies #[trigger] expansion(
        path,
        environment,
        reading,
    ) == standard_expansion(path, environment) by {
        law_text_is_kept(path, path, environment.variables, reading);
        law_text_is_kept(path, path, environment.variables, standard());
    }
    law_text_is_kept(path, path, environment.variables, standard());
}

/// A path without dollars that starts with a tilde, alone or before a slash, is one in the home
/// directory, in every environment that has one and by every reading.
pub proof fn law_home_paths(path: Seq<char>, environment: EnvironmentView)
    requires
        !path.contains('$'),
        path.len() > 0,
        path[0] == '~',
        path.len() == 1 || path[1] == '/',
        environment.home is Some,
    ensures
        clear(path, environment),
        standard_expansion(path, environment) == Ok::<Seq<char>, MissingView>(
            environment.home->0 + path.skip(1),
        ),
{
    assert forall|reading: Reading| usual(reading) implies #[trigger] expansion(
        path,
        environment,
        reading,
    ) == standard_expansion(path, environment) by {
        law_text_is_kept(path, path, environment.variables, reading);
        law_text_is_kept(path, path, environment.variables, standard());
    }
    law_text_is_kept(path, path, environment.variables, standard());
}

/// The value of a variable is the one that is listed first under its name; a variable that is not
/// listed is not set.
pub proof fn law_first_value_counts(variables: Seq<VariableView>, name: Seq<char>, at: int)
    requires
        0 <= at <= variables.len(),
        forall|i: int| 0 <= i < at ==> (#[trigger] variables[i]).name != name,
        at < variables.len() ==> variables[at].name == name,
    ensures
        value_of(variables, name) == if at == variables.len() {
            Err::<Seq<char>, Absence>(Absence::Unset)
        } else {
            match variables[at].value {
                Some(value) => Ok::<Seq<char>, Absence>(value),
                None => Err::<Seq<char>, Absence>(Absence::NotText),
            }
        },
    decreases variables.len(),
{
    if at > 0 {
        let rest = variables.drop_first();
        assert(variables[0].name != name);
        assert(forall|i: int| 0 <= i < rest.len() ==> #[trigger] rest[i] == variables[i + 1]);
        law_first_value_counts(rest, name, at - 1);
    }
}

/// A variable in a path becomes its value, and the text around it is kept; a variable without a value
/// is missing.
pub proof fn law_variable_in_path(
    before: Seq<char>,
    name: Seq<char>,
    after: Seq<char>,
    variables: Seq<VariableView>,
    reading: Reading,
)
    requires
        usual(reading),
        !before.contains('$'),
        !after.contains('$'),
        name.len() > 0,
        forall|i: int| 0 <= i < name.len() ==> is_word(#[trigger] name[i]),
        after.len() > 0 ==> after[0] < '\u{80}' && !is_word(after[0]),
    ensures
        filled(before + ("$"@ + name + after), variables, reading) == match value_of(
            variables,
            name,
        ) {
            Ok(value) => Ok::<Seq<char>, MissingView>(before + (value + after)),
            Err(cause) => Err::<Seq<char>, MissingView>(MissingView { name, cause }),
        },
{
    law_text_is_kept(before, "$"@ + name + after, variables, reading);
    law_variable(name, after, variables, reading);
    law_text_is_kept(after, after, variables, reading);
}

/// A variable with a default becomes its value, or the default where it has none, and the text around
/// it is kept.
pub proof fn law_default_in_path(
    before: Seq<char>,
    name: Seq<char>,
    default: Seq<char>,
    after: Seq<char>,
    variables: Seq<VariableView>,
    reading: Reading,
)
    requires
        !before.contains('$'),
        !after.contains('$'),
        name.len() > 0,
        !name.contains(':'),
        !(name + ":-"@ + default).contains('}'),
    ensures
        filled(
            before + ("${"@ + (name + ":-"@ + default) + "}"@ + after),
            variables,
            reading,
        ) == Ok::<Seq<char>, MissingView>(
            before + (match value_of(variables, name) {
                Ok(value) => value,
                Err(_) => default,
            } + after),
        ),
{
    let inner = name + ":-"@ + default;
    law_names_and_defaults(name, default);
    law_braces(inner, after, variables, reading);
    law_text_is_kept(before, "${"@ + inner + "}"@ + after, variables, reading);
    law_text_is_kept(after, after, variables, reading);
}

} // verus!

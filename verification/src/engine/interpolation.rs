//! Environment variables in configuration text.
//!
//! A reference has the form `${NAME}` or `${NAME:-default}`, where `NAME`
//! begins with an ASCII letter or an underscore and goes on with ASCII
//! letters, digits and underscores, and the default holds no closing brace.
//! A reference stands for the value of the variable; for the default where
//! the variable is not set; and for itself where there is no default either.

use crate::engine::config::ConfigManager;
use crate::models::config::env_value;
use crate::text::{chars_of, push_char, push_text, str_eq, text_between};
use vstd::prelude::*;

verus! {

/// Whether a variable name can begin with `c`.
pub open spec fn is_name_start(c: char) -> bool {
    ('a' <= c <= 'z') || ('A' <= c <= 'Z') || c == '_'
}

/// Whether a variable name can go on with `c`.
pub open spec fn is_name_part(c: char) -> bool {
    is_name_start(c) || ('0' <= c <= '9')
}

/// The first position from `from` on that holds no character of a name, or
/// the length of the text.
pub open spec fn name_end(text: Seq<char>, from: int) -> int
    decreases text.len() - from,
{
    if from < 0 || from >= text.len() {
        text.len() as int
    } else if !is_name_part(text[from]) {
        from
    } else {
        name_end(text, from + 1)
    }
}

/// The first position from `from` on that holds a closing brace, or the
/// length of the text.
pub open spec fn brace_from(text: Seq<char>, from: int) -> int
    decreases text.len() - from,
{
    if from < 0 || from >= text.len() {
        text.len() as int
    } else if text[from] == '}' {
        from
    } else {
        brace_from(text, from + 1)
    }
}

/// A reference to a variable: its name, its default if it has one, and the
/// position behind its closing brace.
pub struct Reference {
    pub name: Seq<char>,
    pub default: Option<Seq<char>>,
    pub end: int,
}

/// The reference that begins at position `at` of the text, if one does.
pub open spec fn reference_at(text: Seq<char>, at: int) -> Option<Reference> {
    if 0 <= at && at + 2 < text.len() && text[at] == '$' && text[at + 1] == '{' && is_name_start(
        text[at + 2],
    ) {
        let stop = name_end(text, at + 3);
        let name = text.subrange(at + 2, stop);
        if stop < text.len() && text[stop] == '}' {
            Some(Reference { name, default: None, end: stop + 1 })
        } else if stop + 1 < text.len() && text[stop] == ':' && text[stop + 1] == '-' && brace_from(
            text,
            stop + 2,
        ) < text.len() {
            Some(
                Reference {
                    name,
                    default: Some(text.subrange(stop + 2, brace_from(text, stop + 2))),
                    end: brace_from(text, stop + 2) + 1,
                },
            )
        } else {
            None
        }
    } else {
        None
    }
}

/// What the reference `reference`, which begins at position `at` of the
/// text, stands for in the environment `env`.
pub open spec fn value_of_reference(
    text: Seq<char>,
    at: int,
    reference: Reference,
    env: Seq<(Seq<char>, Seq<char>)>,
) -> Seq<char> {
    match env_value(env, reference.name) {
        Some(value) => value,
        None => match reference.default {
            Some(default) => default,
            None => text.subrange(at, reference.end),
        },
    }
}

/// The text from position `from` on with every reference replaced by what it
/// stands for. References are read from left to right and do not overlap.
pub open spec fn interpolated_from(text: Seq<char>, from: int, env: Seq<(Seq<char>, Seq<char>)>) -> Seq<
    char,
>
    decreases text.len() - from,
{
    if from < 0 || from >= text.len() {
        Seq::empty()
    } else {
        match reference_at(text, from) {
            Some(reference) => if reference.end > from {
                value_of_reference(text, from, reference, env) + interpolated_from(
                    text,
                    reference.end,
                    env,
                )
            } else {
                Seq::empty()
            },
            None => seq![text[from]] + interpolated_from(text, from + 1, env),
        }
    }
}

/// The text with every reference replaced by what it stands for.
pub open spec fn interpolated(text: Seq<char>, env: Seq<(Seq<char>, Seq<char>)>) -> Seq<char> {
    interpolated_from(text, 0, env)
}

/// The name ends at or after the position from which it is read, and within
/// the text.
pub proof fn lemma_name_end(text: Seq<char>, from: int)
    requires
        0 <= from <= text.len(),
    ensures
        from <= name_end(text, from) <= text.len(),
    decreases text.len() - from,
{
    if from < text.len() && is_name_part(text[from]) {
        lemma_name_end(text, from + 1);
    }
}

/// The closing brace stands at or after the position from which it is
/// sought, or is not there.
pub proof fn lemma_brace_from(text: Seq<char>, from: int)
    requires
        0 <= from <= text.len(),
    ensures
        from <= brace_from(text, from) <= text.len(),
    decreases text.len() - from,
{
    if from < text.len() && text[from] != '}' {
        lemma_brace_from(text, from + 1);
    }
}

/// A reference is at least four characters long and ends within the text.
pub proof fn lemma_reference_has_length(text: Seq<char>, at: int)
    requires
        reference_at(text, at) is Some,
    ensures
        at + 4 <= reference_at(text, at)->0.end <= text.len(),
{
    lemma_name_end(text, at + 3);
    let stop = name_end(text, at + 3);
    if !(stop < text.len() && text[stop] == '}') {
        lemma_brace_from(text, stop + 2);
    }
}

fn is_name_start_char(c: char) -> (r: bool)
    ensures
        r == is_name_start(c),
{
    ('a' <= c && c <= 'z') || ('A' <= c && c <= 'Z') || c == '_'
}

fn is_name_part_char(c: char) -> (r: bool)
    ensures
        r == is_name_part(c),
{
    is_name_start_char(c) || ('0' <= c && c <= '9')
}

/// The value that the environment gives the variable `name`: that of its
/// last entry with that name.
pub fn lookup(env: &Vec<(String, String)>, name: &str) -> (found: Option<usize>)
    ensures
        match found {
            Some(i) => i < env.len() && env_value(env.deep_view(), name@) == Some(env@[i as int].1@),
            None => env_value(env.deep_view(), name@) is None,
        },
{
    let ghost all = env.deep_view();
    let mut i: usize = env.len();
    assert(all.take(i as int) =~= all);
    while i > 0
        invariant
            i <= env.len(),
            all == env.deep_view(),
            env_value(all, name@) == env_value(all.take(i as int), name@),
        decreases i,
    {
        i = i - 1;
        assert(all.take(i + 1).drop_last() =~= all.take(i as int));
        assert(all.take(i + 1).last() == all[i as int]);
        assert(all[i as int] == (env@[i as int].0@, env@[i as int].1@));
        if str_eq(env[i].0.as_str(), name) {
            return Some(i);
        }
    }
    assert(all.take(0) =~= Seq::<(Seq<char>, Seq<char>)>::empty());
    None
}

/// Appends the characters of `chars` from `from` up to `to` to `out`.
fn push_range(out: &mut String, chars: &Vec<char>, from: usize, to: usize)
    requires
        from <= to <= chars.len(),
    ensures
        final(out)@ == old(out)@ + chars@.subrange(from as int, to as int),
{
    let mut i: usize = from;
    while i < to
        invariant
            from <= i <= to <= chars.len(),
            out@ == old(out)@ + chars@.subrange(from as int, i as int),
        decreases to - i,
    {
        push_char(out, chars[i]);
        assert(out@ =~= old(out)@ + chars@.subrange(from as int, i + 1));
        i = i + 1;
    }
    assert(chars@.subrange(from as int, from as int) =~= Seq::<char>::empty());
}

/// Reads the reference that begins at position `at`, if one does: the
/// positions at which its name ends, at which its default begins and ends if
/// it has one, and the position behind its closing brace.
fn read_reference(chars: &Vec<char>, at: usize) -> (found: Option<(usize, Option<(usize, usize)>, usize)>)
    requires
        at < chars.len(),
    ensures
        match found {
            Some((name_stop, default, end)) => {
                &&& reference_at(chars@, at as int) is Some
                &&& at + 3 <= name_stop <= chars.len()
                &&& end <= chars.len()
                &&& reference_at(chars@, at as int)->0.name == chars@.subrange(at + 2, name_stop as int)
                &&& reference_at(chars@, at as int)->0.end == end
                &&& match default {
                    Some((from, to)) => from <= to <= chars.len() && reference_at(
                        chars@,
                        at as int,
                    )->0.default == Some(chars@.subrange(from as int, to as int)),
                    None => reference_at(chars@, at as int)->0.default is None,
                }
            },
            None => reference_at(chars@, at as int) is None,
        },
{
    let len = chars.len();
    if len - at < 3 {
        return None;
    }
    if chars[at] != '$' || chars[at + 1] != '{' || !is_name_start_char(chars[at + 2]) {
        return None;
    }
    let mut stop: usize = at + 3;
    while stop < len && is_name_part_char(chars[stop])
        invariant
            at + 3 <= stop <= len,
            len == chars.len(),
            name_end(chars@, stop as int) == name_end(chars@, at + 3),
        decreases len - stop,
    {
        stop = stop + 1;
    }
    assert(name_end(chars@, at + 3) == stop);
    if stop < len && chars[stop] == '}' {
        return Some((stop, None, stop + 1));
    }
    if len - stop < 2 || chars[stop] != ':' || chars[stop + 1] != '-' {
        return None;
    }
    let mut close: usize = stop + 2;
    while close < len && chars[close] != '}'
        invariant
            stop + 2 <= close <= len,
            len == chars.len(),
            brace_from(chars@, close as int) == brace_from(chars@, stop + 2),
        decreases len - close,
    {
        close = close + 1;
    }
    assert(brace_from(chars@, stop + 2) == close);
    if close < len {
        Some((stop, Some((stop + 2, close)), close + 1))
    } else {
        None
    }
}

impl ConfigManager {
    /// Interpolates environment variables in config strings.
    ///
    /// Supports two syntax forms:
    /// - `${VAR}` - Simple variable substitution
    /// - `${VAR:-default}` - Variable with default value if unset
    ///
    /// The environment is given as a list of names and values, of which the
    /// last entry of a name counts.
    pub fn interpolate_env_vars(input: &str, env: &Vec<(String, String)>) -> (output: String)
        ensures
            output@ == interpolated(input@, env.deep_view()),
    {
        let chars = chars_of(input);
        let ghost text = chars@;
        let ghost vars = env.deep_view();
        let mut out = String::new();
        let mut i: usize = 0;
        while i < chars.len()
            invariant
                i <= chars.len(),
                text == chars@,
                text == input@,
                vars == env.deep_view(),
                out@ + interpolated_from(text, i as int, vars) == interpolated(text, vars),
            decreases chars.len() - i,
        {
            let ghost before = out@;
            match read_reference(&chars, i) {
                Some((name_stop, default, end)) => {
                    proof {
                        lemma_reference_has_length(text, i as int);
                    }
                    let ghost reference = reference_at(text, i as int)->0;
                    let name = text_between(&chars, i + 2, name_stop);
                    match lookup(env, name.as_str()) {
                        Some(at) => {
                            push_text(&mut out, env[at].1.as_str());
                        },
                        None => {
                            match default {
                                Some((from, to)) => {
                                    push_range(&mut out, &chars, from, to);
                                },
                                None => {
                                    push_range(&mut out, &chars, i, end);
                                },
                            }
                        },
                    }
                    assert(out@ == before + value_of_reference(text, i as int, reference, vars));
                    assert(out@ + interpolated_from(text, end as int, vars) =~= before + interpolated_from(
                        text,
                        i as int,
                        vars,
                    ));
                    i = end;
                },
                None => {
                    push_char(&mut out, chars[i]);
                    assert(out@ + interpolated_from(text, i + 1, vars) =~= before + interpolated_from(
                        text,
                        i as int,
                        vars,
                    ));
                    i = i + 1;
                },
            }
        }
        assert(out@ + Seq::<char>::empty() =~= out@);
        out
    }
}

} // verus!

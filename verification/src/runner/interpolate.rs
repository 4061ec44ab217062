//! Variable interpolation for strings.
//!
//! A placeholder is written `${name}`, where `name` is a non-empty run of
//! characters other than `}`. Placeholders are found from left to right and
//! do not overlap.

use vstd::prelude::*;
use crate::collections::StringMap;
use crate::error::{InterpolationError, InterpolationResult};
use crate::text::{contains_str, from_chars, to_chars};

verus! {

/// The most distinct names one call may substitute.
pub const MAX_SUBSTITUTIONS: usize = 100;

/// A variable bag as a mathematical map from names to values.
pub open spec fn bag(vars: &StringMap<String>) -> Map<Seq<char>, Seq<char>> {
    vars@.map_values(|v: String| v@)
}

/// The position of the first `}` at or after `from`, or the length of `text`
/// where there is none.
pub open spec fn close_from(text: Seq<char>, from: int) -> int
    decreases text.len() - from,
{
    if from < 0 || from >= text.len() {
        text.len() as int
    } else if text[from] == '}' {
        from
    } else {
        close_from(text, from + 1)
    }
}

/// Whether a placeholder starts at position `i` of `text`.
pub open spec fn placeholder_at(text: Seq<char>, i: int) -> bool {
    &&& 0 <= i
    &&& i + 3 < text.len()
    &&& text[i] == '$'
    &&& text[i + 1] == '{'
    &&& text[i + 2] != '}'
    &&& close_from(text, i + 3) < text.len()
}

/// The position of the `}` that ends the placeholder starting at `i`.
pub open spec fn placeholder_end(text: Seq<char>, i: int) -> int {
    close_from(text, i + 3)
}

/// The name inside the placeholder starting at `i`.
pub open spec fn placeholder_name(text: Seq<char>, i: int) -> Seq<char> {
    text.subrange(i + 2, placeholder_end(text, i))
}

/// Whether `text` holds a placeholder anywhere.
pub open spec fn has_placeholder(text: Seq<char>) -> bool {
    exists|i: int| placeholder_at(text, i)
}

/// What a name resolves to: the variable bag first, then the environment.
pub open spec fn lookup(
    name: Seq<char>,
    vars: Map<Seq<char>, Seq<char>>,
    env: Map<Seq<char>, Seq<char>>,
) -> Option<Seq<char>> {
    if vars.contains_key(name) {
        Some(vars[name])
    } else if env.contains_key(name) {
        Some(env[name])
    } else {
        None
    }
}

/// The outcome of one pass over a text.
pub ghost struct Pass {
    /// The text after the pass.
    pub text: Seq<char>,
    /// The names substituted so far in this call, oldest first.
    pub seen: Seq<Seq<char>>,
    /// Whether the pass substituted anything.
    pub changed: bool,
}

/// One left-to-right pass over `text` from position `i` on. A placeholder is
/// replaced by what its name resolves to, unless the name was substituted
/// before in this call or resolves to nothing; then it stays as written.
pub open spec fn pass_from(
    text: Seq<char>,
    i: int,
    vars: Map<Seq<char>, Seq<char>>,
    env: Map<Seq<char>, Seq<char>>,
    seen: Seq<Seq<char>>,
) -> Pass
    decreases text.len() - i,
{
    if i < 0 || i >= text.len() {
        Pass { text: Seq::empty(), seen, changed: false }
    } else if placeholder_at(text, i) {
        proof {
            lemma_close_from_bounds(text, i + 3);
        }
        let end = placeholder_end(text, i);
        let name = placeholder_name(text, i);
        let value = lookup(name, vars, env);
        if !seen.contains(name) && value is Some {
            let rest = pass_from(text, end + 1, vars, env, seen.push(name));
            Pass { text: value->0 + rest.text, seen: rest.seen, changed: true }
        } else {
            let rest = pass_from(text, end + 1, vars, env, seen);
            Pass { text: text.subrange(i, end + 1) + rest.text, seen: rest.seen, changed: rest.changed }
        }
    } else {
        let rest = pass_from(text, i + 1, vars, env, seen);
        Pass { text: seq![text[i]] + rest.text, seen: rest.seen, changed: rest.changed }
    }
}

/// A pass never forgets a name, and one that changes the text adds a name.
pub proof fn lemma_pass_grows(
    text: Seq<char>,
    i: int,
    vars: Map<Seq<char>, Seq<char>>,
    env: Map<Seq<char>, Seq<char>>,
    seen: Seq<Seq<char>>,
)
    ensures
        pass_from(text, i, vars, env, seen).seen.len() >= seen.len(),
        pass_from(text, i, vars, env, seen).changed ==> pass_from(text, i, vars, env, seen).seen.len()
            > seen.len(),
    decreases text.len() - i,
{
    if i < 0 || i >= text.len() {
    } else if placeholder_at(text, i) {
        let end = placeholder_end(text, i);
        let name = placeholder_name(text, i);
        lemma_close_from_bounds(text, i + 3);
        if !seen.contains(name) && lookup(name, vars, env) is Some {
            lemma_pass_grows(text, end + 1, vars, env, seen.push(name));
        } else {
            lemma_pass_grows(text, end + 1, vars, env, seen);
        }
    } else {
        lemma_pass_grows(text, i + 1, vars, env, seen);
    }
}

/// `close_from` lands at or after `from`, on a `}` unless it is the length.
pub proof fn lemma_close_from_bounds(text: Seq<char>, from: int)
    requires
        0 <= from,
    ensures
        from <= close_from(text, from) || close_from(text, from) == text.len(),
        close_from(text, from) <= text.len(),
        close_from(text, from) < text.len() ==> text[close_from(text, from)] == '}',
        forall|j: int| from <= j < close_from(text, from) ==> text[j] != '}',
    decreases text.len() - from,
{
    if from >= text.len() {
    } else if text[from] == '}' {
    } else {
        lemma_close_from_bounds(text, from + 1);
    }
}

/// Where no `}` follows one position, none follows a later one.
pub proof fn lemma_no_close_later(text: Seq<char>, from: int, later: int)
    requires
        0 <= from <= later,
        close_from(text, from) == text.len(),
    ensures
        close_from(text, later) == text.len(),
{
    lemma_close_from_bounds(text, from);
    lemma_close_from_bounds(text, later);
}

/// Repeats passes over `text` until one changes nothing. `None` stands for
/// the failure that comes when more than `MAX_SUBSTITUTIONS` distinct names
/// have been substituted.
pub open spec fn resolve(
    text: Seq<char>,
    vars: Map<Seq<char>, Seq<char>>,
    env: Map<Seq<char>, Seq<char>>,
    seen: Seq<Seq<char>>,
) -> Option<Seq<char>>
    decreases MAX_SUBSTITUTIONS + 1 - seen.len(),
{
    let pass = pass_from(text, 0, vars, env, seen);
    if !pass.changed {
        Some(pass.text)
    } else if pass.seen.len() > MAX_SUBSTITUTIONS {
        None
    } else {
        proof {
            lemma_pass_grows(text, 0, vars, env, seen);
        }
        resolve(pass.text, vars, env, pass.seen)
    }
}

/// What lenient interpolation of `text` gives.
pub open spec fn interpolate_spec(
    text: Seq<char>,
    vars: Map<Seq<char>, Seq<char>>,
    env: Map<Seq<char>, Seq<char>>,
) -> Option<Seq<char>> {
    resolve(text, vars, env, Seq::empty())
}

/// The position of the first placeholder that starts at or after `from`, or
/// the length of `text` where there is none.
pub open spec fn next_placeholder(text: Seq<char>, from: int) -> int
    decreases text.len() - from,
{
    if from < 0 || from >= text.len() {
        text.len() as int
    } else if placeholder_at(text, from) {
        from
    } else {
        next_placeholder(text, from + 1)
    }
}

/// `next_placeholder` finds the leftmost placeholder, if there is one.
pub proof fn lemma_next_placeholder(text: Seq<char>, from: int)
    requires
        0 <= from,
    ensures
        from <= next_placeholder(text, from) || next_placeholder(text, from) == text.len(),
        next_placeholder(text, from) <= text.len(),
        next_placeholder(text, from) < text.len() ==> placeholder_at(
            text,
            next_placeholder(text, from),
        ),
        forall|j: int| from <= j < next_placeholder(text, from) ==> !placeholder_at(text, j),
    decreases text.len() - from,
{
    if from >= text.len() {
    } else if placeholder_at(text, from) {
    } else {
        lemma_next_placeholder(text, from + 1);
    }
}

/// A text has a placeholder exactly when `next_placeholder` finds one.
pub proof fn lemma_has_placeholder(text: Seq<char>)
    ensures
        has_placeholder(text) <==> next_placeholder(text, 0) < text.len(),
{
    lemma_next_placeholder(text, 0);
    if has_placeholder(text) {
        let i = choose|i: int| placeholder_at(text, i);
        assert(placeholder_at(text, i));
    }
}

/// A pass over a stretch without placeholders copies it and substitutes
/// nothing.
pub proof fn lemma_pass_without_placeholder(
    text: Seq<char>,
    i: int,
    vars: Map<Seq<char>, Seq<char>>,
    env: Map<Seq<char>, Seq<char>>,
    seen: Seq<Seq<char>>,
)
    requires
        0 <= i <= text.len(),
        forall|j: int| i <= j ==> !placeholder_at(text, j),
    ensures
        pass_from(text, i, vars, env, seen) == (Pass {
            text: text.subrange(i, text.len() as int),
            seen,
            changed: false,
        }),
    decreases text.len() - i,
{
    if i < text.len() {
        lemma_pass_without_placeholder(text, i + 1, vars, env, seen);
        assert(seq![text[i]] + text.subrange(i + 1, text.len() as int) == text.subrange(
            i,
            text.len() as int,
        ));
    } else {
        assert(text.subrange(i, text.len() as int) == Seq::<char>::empty());
    }
}

/// Interpolation leaves a text without placeholders as it is, whatever the
/// variables and the environment hold.
pub proof fn lemma_interpolate_without_placeholder(
    text: Seq<char>,
    vars: Map<Seq<char>, Seq<char>>,
    env: Map<Seq<char>, Seq<char>>,
)
    requires
        !has_placeholder(text),
    ensures
        interpolate_spec(text, vars, env) == Some(text),
{
    lemma_pass_without_placeholder(text, 0, vars, env, Seq::empty());
    assert(text.subrange(0, text.len() as int) == text);
}

/// Interpolation is idempotent once fully resolved: interpolating a result
/// that holds no placeholder gives that result again.
pub proof fn lemma_interpolate_idempotent(
    text: Seq<char>,
    vars: Map<Seq<char>, Seq<char>>,
    env: Map<Seq<char>, Seq<char>>,
)
    requires
        interpolate_spec(text, vars, env) is Some,
        !has_placeholder(interpolate_spec(text, vars, env)->0),
    ensures
        interpolate_spec(interpolate_spec(text, vars, env)->0, vars, env) == interpolate_spec(
            text,
            vars,
            env,
        ),
{
    lemma_interpolate_without_placeholder(interpolate_spec(text, vars, env)->0, vars, env);
}

/// The position of the first `}` at or after `from`.
fn find_close(text: &Vec<char>, from: usize) -> (r: usize)
    requires
        from <= text.len(),
    ensures
        r == close_from(text@, from as int),
        from <= r <= text.len(),
{
    let mut j: usize = from;
    while j < text.len() && text[j] != '}'
        invariant
            from <= j <= text.len(),
            close_from(text@, from as int) == close_from(text@, j as int),
        decreases text.len() - j,
    {
        j += 1;
    }
    j
}

/// The characters of `text` from `from` up to `to`, as a string.
fn slice_string(text: &Vec<char>, from: usize, to: usize) -> (s: String)
    requires
        from <= to <= text.len(),
    ensures
        s@ == text@.subrange(from as int, to as int),
{
    let mut part: Vec<char> = Vec::new();
    let mut j: usize = from;
    while j < to
        invariant
            from <= j <= to <= text.len(),
            part@ == text@.subrange(from as int, j as int),
        decreases to - j,
    {
        part.push(text[j]);
        j += 1;
    }
    from_chars(&part)
}

/// Appends the characters of `text` from `from` up to `to` to `out`.
fn append_range(out: &mut Vec<char>, text: &Vec<char>, from: usize, to: usize)
    requires
        from <= to <= text.len(),
    ensures
        final(out)@ == old(out)@ + text@.subrange(from as int, to as int),
{
    let mut j: usize = from;
    while j < to
        invariant
            from <= j <= to <= text.len(),
            out@ == old(out)@ + text@.subrange(from as int, j as int),
        decreases to - j,
    {
        out.push(text[j]);
        j += 1;
    }
}

/// Appends the characters of `s` to `out`.
fn append_str(out: &mut Vec<char>, s: &str)
    ensures
        final(out)@ == old(out)@ + s@,
{
    let chars = to_chars(s);
    append_range(out, &chars, 0, chars.len());
    assert(chars@.subrange(0, chars@.len() as int) == chars@);
}

/// Looks `name` up in the variable bag, then in the environment.
fn lookup_value<'a>(name: &str, vars: &'a StringMap<String>, env: &'a StringMap<String>) -> (r:
    Option<&'a String>)
    ensures
        match r {
            Some(v) => lookup(name@, bag(vars), bag(env)) == Some(v@),
            None => lookup(name@, bag(vars), bag(env)) is None,
        },
{
    match vars.get(name) {
        Some(v) => Some(v),
        None => env.get(name),
    }
}

/// One pass over `text`; see `pass_from`.
fn substitute_pass(
    text: &Vec<char>,
    vars: &StringMap<String>,
    env: &StringMap<String>,
    seen: &mut Vec<String>,
) -> (r: (Vec<char>, bool))
    ensures
        r.0@ == pass_from(text@, 0, bag(vars), bag(env), old(seen).deep_view()).text,
        r.1 == pass_from(text@, 0, bag(vars), bag(env), old(seen).deep_view()).changed,
        final(seen).deep_view() == pass_from(
            text@,
            0,
            bag(vars),
            bag(env),
            old(seen).deep_view(),
        ).seen,
{
    let ghost whole = pass_from(text@, 0, bag(vars), bag(env), seen.deep_view());
    let mut out: Vec<char> = Vec::new();
    let mut changed = false;
    // From `barren` on, no `}` follows: no placeholder can start there.
    let mut barren: usize = text.len();
    let mut i: usize = 0;
    while i < text.len()
        invariant
            i <= text.len(),
            barren <= text.len(),
            close_from(text@, barren as int) == text.len(),
            whole.text == out@ + pass_from(text@, i as int, bag(vars), bag(env), seen.deep_view()).text,
            whole.seen == pass_from(text@, i as int, bag(vars), bag(env), seen.deep_view()).seen,
            whole.changed == (changed || pass_from(
                text@,
                i as int,
                bag(vars),
                bag(env),
                seen.deep_view(),
            ).changed),
        decreases text.len() - i,
    {
        let ghost here = pass_from(text@, i as int, bag(vars), bag(env), seen.deep_view());
        let ghost out_before = out@;
        let mut end: usize = text.len();
        if text[i] == '$' && text.len() - i > 3 && text[i + 1] == '{' && text[i + 2] != '}' {
            if i + 3 < barren {
                end = find_close(text, i + 3);
                if end == text.len() {
                    barren = i + 3;
                }
            } else {
                proof {
                    lemma_no_close_later(text@, barren as int, i + 3);
                }
            }
        }
        if end < text.len() {
            assert(placeholder_at(text@, i as int));
            let name = slice_string(text, i + 2, end);
            let known = contains_str(seen, name.as_str());
            let value = if known {
                None
            } else {
                lookup_value(name.as_str(), vars, env)
            };
            match value {
                Some(v) => {
                    append_str(&mut out, v.as_str());
                    let ghost before = seen.deep_view();
                    seen.push(name);
                    changed = true;
                    proof {
                        assert(seen.deep_view() == before.push(name@));
                        let rest = pass_from(text@, end + 1, bag(vars), bag(env), seen.deep_view());
                        assert(here.text == v@ + rest.text);
                        assert(out@ + rest.text == out_before + here.text);
                    }
                },
                None => {
                    append_range(&mut out, text, i, end + 1);
                    proof {
                        let rest = pass_from(text@, end + 1, bag(vars), bag(env), seen.deep_view());
                        assert(here.text == text@.subrange(i as int, end + 1) + rest.text);
                        assert(out@ + rest.text == out_before + here.text);
                    }
                },
            }
            i = end + 1;
        } else {
            assert(!placeholder_at(text@, i as int));
            out.push(text[i]);
            proof {
                let rest = pass_from(text@, i + 1, bag(vars), bag(env), seen.deep_view());
                assert(here.text == seq![text@[i as int]] + rest.text);
                assert(out@ + rest.text == out_before + here.text);
            }
            i += 1;
        }
    }
    (out, changed)
}

/// Replaces the placeholders of `s` by their values, repeating over the
/// whole text until a pass substitutes nothing.
///
/// A name resolves to its value in `vars` or else in `env`, the process
/// environment as the caller read it. A placeholder whose name resolves to
/// nothing, or was substituted earlier in this call, stays as written. The
/// call fails when more than `MAX_SUBSTITUTIONS` distinct names have been
/// substituted.
pub fn interpolate(s: &str, vars: &StringMap<String>, env: &StringMap<String>) -> (r:
    InterpolationResult<String>)
    ensures
        match r {
            Ok(out) => interpolate_spec(s@, bag(vars), bag(env)) == Some(out@),
            Err(e) => interpolate_spec(s@, bag(vars), bag(env)) is None
                && e is RecursiveInterpolation,
        },
{
    let mut text = to_chars(s);
    let mut seen: Vec<String> = Vec::new();
    assert(seen.deep_view() == Seq::<Seq<char>>::empty());
    loop
        invariant
            seen.len() <= MAX_SUBSTITUTIONS,
            interpolate_spec(s@, bag(vars), bag(env)) == resolve(
                text@,
                bag(vars),
                bag(env),
                seen.deep_view(),
            ),
        decreases MAX_SUBSTITUTIONS - seen.len(),
    {
        proof {
            lemma_pass_grows(text@, 0, bag(vars), bag(env), seen.deep_view());
        }
        let (next, changed) = substitute_pass(&text, vars, env, &mut seen);
        if !changed {
            return Ok(from_chars(&next));
        }
        if seen.len() > MAX_SUBSTITUTIONS {
            return Err(InterpolationError::RecursiveInterpolation);
        }
        text = next;
    }
}

/// The leftmost placeholder of `text`: where it starts and where its `}` is.
fn find_placeholder(text: &Vec<char>) -> (r: Option<(usize, usize)>)
    ensures
        match r {
            Some((start, end)) => start == next_placeholder(text@, 0) && start < text.len()
                && end == placeholder_end(text@, start as int) && start + 3 <= end < text.len(),
            None => next_placeholder(text@, 0) == text.len(),
        },
{
    let mut barren: usize = text.len();
    let mut i: usize = 0;
    while i < text.len()
        invariant
            i <= text.len(),
            barren <= text.len(),
            close_from(text@, barren as int) == text.len(),
            next_placeholder(text@, 0) == next_placeholder(text@, i as int),
        decreases text.len() - i,
    {
        if text[i] == '$' && text.len() - i > 3 && text[i + 1] == '{' && text[i + 2] != '}' {
            if i + 3 < barren {
                let end = find_close(text, i + 3);
                if end < text.len() {
                    return Some((i, end));
                }
                barren = i + 3;
            } else {
                proof {
                    lemma_no_close_later(text@, barren as int, i + 3);
                }
            }
        }
        i += 1;
    }
    None
}

/// Interpolates `s` and then insists that nothing is left unresolved: fails
/// with the name of the leftmost placeholder that remains, if one does.
pub fn interpolate_strict(s: &str, vars: &StringMap<String>, env: &StringMap<String>) -> (r:
    InterpolationResult<String>)
    ensures
        match r {
            Ok(out) => interpolate_spec(s@, bag(vars), bag(env)) == Some(out@) && !has_placeholder(
                out@,
            ),
            Err(InterpolationError::RecursiveInterpolation) => interpolate_spec(
                s@,
                bag(vars),
                bag(env),
            ) is None,
            Err(InterpolationError::UndefinedVariable(name)) => {
                &&& interpolate_spec(s@, bag(vars), bag(env)) matches Some(out)
                &&& has_placeholder(out)
                &&& name@ == placeholder_name(out, next_placeholder(out, 0))
            },
            Err(InterpolationError::InvalidSyntax(_)) => false,
        },
{
    let out = match interpolate(s, vars, env) {
        Ok(out) => out,
        Err(e) => {
            return Err(InterpolationError::RecursiveInterpolation);
        },
    };
    let chars = to_chars(out.as_str());
    proof {
        lemma_has_placeholder(chars@);
    }
    match find_placeholder(&chars) {
        Some((start, end)) => Err(
            InterpolationError::UndefinedVariable(slice_string(&chars, start + 2, end)),
        ),
        None => Ok(out),
    }
}

/// What interpolating each element of a list gives: `None` where an element
/// fails.
pub open spec fn interpolate_all(
    items: Seq<Seq<char>>,
    vars: Map<Seq<char>, Seq<char>>,
    env: Map<Seq<char>, Seq<char>>,
) -> Option<Seq<Seq<char>>> {
    if forall|i: int| 0 <= i < items.len() ==> interpolate_spec(#[trigger] items[i], vars, env) is Some {
        Some(Seq::new(items.len(), |i: int| interpolate_spec(items[i], vars, env)->0))
    } else {
        None
    }
}

/// Interpolates every string of `list`, in order. Fails if one of them fails.
pub fn interpolate_list(list: &[String], vars: &StringMap<String>, env: &StringMap<String>) -> (r:
    InterpolationResult<Vec<String>>)
    ensures
        match r {
            Ok(out) => interpolate_all(list.deep_view(), bag(vars), bag(env)) == Some(
                out.deep_view(),
            ),
            Err(e) => interpolate_all(list.deep_view(), bag(vars), bag(env)) is None
                && e is RecursiveInterpolation,
        },
{
    let mut out: Vec<String> = Vec::new();
    let mut i: usize = 0;
    while i < list.len()
        invariant
            i <= list.len(),
            out.len() == i,
            forall|j: int|
                0 <= j < i ==> interpolate_spec(#[trigger] list.deep_view()[j], bag(vars), bag(env))
                    == Some(out.deep_view()[j]),
        decreases list.len() - i,
    {
        match interpolate(list[i].as_str(), vars, env) {
            Ok(value) => {
                let ghost before = out.deep_view();
                out.push(value);
                assert(out.deep_view() == before.push(value@));
            },
            Err(e) => {
                assert(interpolate_spec(list.deep_view()[i as int], bag(vars), bag(env)) is None);
                return Err(e);
            },
        }
        i += 1;
    }
    proof {
        let want = interpolate_all(list.deep_view(), bag(vars), bag(env));
        assert(want is Some);
        assert(want->0 =~= out.deep_view());
    }
    Ok(out)
}

/// Interpolates every value of `map`, keeping keys and their order. Fails if
/// one of them fails.
pub fn interpolate_map(
    map: &StringMap<String>,
    vars: &StringMap<String>,
    env: &StringMap<String>,
) -> (r: InterpolationResult<StringMap<String>>)
    ensures
        match r {
            Ok(out) => {
                &&& out.keys() == map.keys()
                &&& bag(&out).dom() == bag(map).dom()
                &&& forall|k: Seq<char>| #[trigger]
                    bag(map).contains_key(k) ==> interpolate_spec(bag(map)[k], bag(vars), bag(env))
                        == Some(bag(&out)[k])
            },
            Err(e) => e is RecursiveInterpolation && exists|k: Seq<char>| #[trigger]
                bag(map).contains_key(k) && interpolate_spec(bag(map)[k], bag(vars), bag(env))
                    is None,
        },
{
    let mut out: StringMap<String> = StringMap::new();
    let n = map.len();
    let mut i: usize = 0;
    while i < n
        invariant
            i <= n,
            n == map.keys().len(),
            map.consistent(),
            out.keys() == map.keys().take(i as int),
            forall|j: int|
                0 <= j < i ==> out@.contains_key(#[trigger] map.keys()[j]) && interpolate_spec(
                    map.values()[j]@,
                    bag(vars),
                    bag(env),
                ) == Some(out@[map.keys()[j]]@),
            forall|k: Seq<char>| out@.contains_key(k) ==> map.keys().take(i as int).contains(k),
        decreases n - i,
    {
        let key = map.key_at(i);
        let value = map.value_at(i);
        match interpolate(value.as_str(), vars, env) {
            Ok(resolved) => {
                let ghost before = out;
                proof {
                    if before@.contains_key(key@) {
                        let j = choose|j: int|
                            0 <= j < i && map.keys().take(i as int)[j] == key@;
                        assert(map.keys()[j] == map.keys()[i as int]);
                    }
                }
                out.insert(key.clone(), resolved);
                proof {
                    assert(map.keys().take(i + 1) == map.keys().take(i as int).push(key@));
                    assert forall|k: Seq<char>| out@.contains_key(k) implies map.keys().take(
                        i + 1,
                    ).contains(k) by {
                        if k == key@ {
                            assert(map.keys().take(i + 1)[i as int] == k);
                        } else {
                            let j = choose|j: int|
                                0 <= j < i && map.keys().take(i as int)[j] == k;
                            assert(map.keys().take(i + 1)[j] == k);
                        }
                    }
                }
            },
            Err(e) => {
                proof {
                    let k = map.keys()[i as int];
                    assert(bag(map).contains_key(k));
                    assert(bag(map)[k] == map.values()[i as int]@);
                }
                return Err(e);
            },
        }
        i += 1;
    }
    proof {
        assert(map.keys().take(n as int) == map.keys());
        assert(bag(&out).dom() =~= bag(map).dom()) by {
            assert forall|k: Seq<char>| bag(map).dom().contains(k) implies bag(&out).dom().contains(
                k,
            ) by {
                assert(map@.contains_key(k));
                assert(map.keys().contains(k));
                let j = map.keys().index_of(k);
                assert(map.keys()[j] == k);
            }
        }
        assert forall|k: Seq<char>| #[trigger] bag(map).contains_key(k) implies interpolate_spec(
            bag(map)[k],
            bag(vars),
            bag(env),
        ) == Some(bag(&out)[k]) by {
            assert(map@.contains_key(k));
            assert(map.keys().contains(k));
            let j = map.keys().index_of(k);
            assert(map.keys()[j] == k);
        }
    }
    Ok(out)
}

} // verus!

//! `${VAR}` references in a configuration text.

use crate::string_map::StringMap;
use crate::text::{chars_of, text_of, texts};
use vstd::prelude::*;

verus! {

/// A character that may begin the name of a variable: an upper-case letter of
/// the alphabet or an underscore.
pub open spec fn begins_name(c: char) -> bool {
    'A' <= c <= 'Z' || c == '_'
}

/// A character that may stand in the name of a variable.
pub open spec fn in_name(c: char) -> bool {
    begins_name(c) || '0' <= c <= '9'
}

/// The number of characters at the start of `s` that may stand in a name.
pub open spec fn name_len(s: Seq<char>) -> int
    decreases s.len(),
{
    if s.len() > 0 && in_name(s[0]) {
        1 + name_len(s.skip(1))
    } else {
        0
    }
}

/// The name of the variable that `s` begins with a reference to: `${`, the name
/// and `}`.
pub open spec fn reference(s: Seq<char>) -> Option<Seq<char>> {
    if s.len() > 2 && s[0] == '$' && s[1] == '{' && begins_name(s[2]) {
        let n = name_len(s.skip(2));
        if n + 2 < s.len() && s[n + 2] == '}' {
            Some(s.subrange(2, n + 2))
        } else {
            None
        }
    } else {
        None
    }
}

/// What follows the reference to `name` that `s` begins with.
pub open spec fn after_reference(s: Seq<char>, name: Seq<char>) -> Seq<char> {
    s.skip(name.len() as int + 3)
}

/// The names of the variables that `s` refers to, in order.
pub open spec fn references(s: Seq<char>) -> Seq<Seq<char>>
    decreases s.len(),
{
    if s.len() == 0 {
        seq![]
    } else {
        match reference(s) {
            Some(name) => {
                proof {
                    lemma_name_len(s.skip(2));
                }
                seq![name] + references(after_reference(s, name))
            },
            None => references(s.skip(1)),
        }
    }
}

/// `s` with every reference replaced by the value of its variable, or the first
/// name that has no value.
pub open spec fn expand(s: Seq<char>, env: Map<Seq<char>, Seq<char>>) -> Result<Seq<char>, Seq<char>>
    decreases s.len(),
{
    if s.len() == 0 {
        Ok(seq![])
    } else {
        match reference(s) {
            Some(name) => if env.contains_key(name) {
                proof {
                    lemma_name_len(s.skip(2));
                }
                behind(env[name], expand(after_reference(s, name), env))
            } else {
                Err(name)
            },
            None => behind(seq![s[0]], expand(s.skip(1), env)),
        }
    }
}

/// `head` in front of a text, where there is one.
pub open spec fn behind(head: Seq<char>, tail: Result<Seq<char>, Seq<char>>) -> Result<
    Seq<char>,
    Seq<char>,
> {
    match tail {
        Ok(t) => Ok(head + t),
        Err(name) => Err(name),
    }
}

/// The values of an environment by their characters.
pub open spec fn env_view(env: Map<Seq<char>, String>) -> Map<Seq<char>, Seq<char>> {
    env.map_values(|v: String| v@)
}

pub proof fn lemma_name_len(s: Seq<char>)
    ensures
        0 <= name_len(s) <= s.len(),
        forall|k: int| 0 <= k < name_len(s) ==> in_name(s[k]),
        name_len(s) < s.len() ==> !in_name(s[name_len(s)]),
    decreases s.len(),
{
    if s.len() > 0 && in_name(s[0]) {
        lemma_name_len(s.skip(1));
        assert forall|k: int| 0 <= k < name_len(s) implies in_name(s[k]) by {
            if k > 0 {
                assert(s.skip(1)[k - 1] == s[k]);
            }
        }
    }
}

proof fn lemma_name_len_is(s: Seq<char>, n: int)
    requires
        0 <= n <= s.len(),
        forall|k: int| 0 <= k < n ==> in_name(s[k]),
        n < s.len() ==> !in_name(s[n]),
    ensures
        name_len(s) == n,
{
    lemma_name_len(s);
}

fn may_begin_name(c: char) -> (is: bool)
    ensures
        is == begins_name(c),
{
    ('A' <= c && c <= 'Z') || c == '_'
}

fn may_stand_in_name(c: char) -> (is: bool)
    ensures
        is == in_name(c),
{
    may_begin_name(c) || ('0' <= c && c <= '9')
}

/// The name that `chars[at..]` begins with a reference to.
fn reference_at(chars: &Vec<char>, at: usize) -> (found: Option<String>)
    requires
        at <= chars@.len(),
    ensures
        (match found {
            Some(name) => reference(chars@.skip(at as int)) == Some(name@) && at + name@.len() + 3
                <= chars@.len(),
            None => reference(chars@.skip(at as int)) is None,
        }),
{
    let ghost s = chars@.skip(at as int);
    if chars.len() - at <= 2 || chars[at] != '$' || chars[at + 1] != '{' || !may_begin_name(
        chars[at + 2],
    ) {
        return None;
    }
    let mut end: usize = at + 2;
    while end < chars.len() && may_stand_in_name(chars[end])
        invariant
            at + 2 <= end <= chars@.len(),
            forall|k: int| at + 2 <= k < end ==> in_name(chars@[k]),
        decreases chars@.len() - end,
    {
        end = end + 1;
    }
    proof {
        lemma_name_len_is(s.skip(2), end - at - 2);
    }
    if end < chars.len() && chars[end] == '}' {
        let name: String = text_of(chars, at + 2, end);
        assert(s.subrange(2, end - at) == chars@.subrange(at + 2, end as int));
        Some(name)
    } else {
        None
    }
}

/// The names of the variables that `input` refers to, in order.
pub fn referenced_vars(input: &str) -> (names: Vec<String>)
    ensures
        texts(names@) == references(input@),
{
    let chars: Vec<char> = chars_of(input);
    let mut names: Vec<String> = Vec::new();
    let mut i: usize = 0;
    assert(chars@.skip(0) == chars@);
    assert(texts(names@) + references(chars@) == references(chars@));
    while i < chars.len()
        invariant
            i <= chars@.len(),
            texts(names@) + references(chars@.skip(i as int)) == references(chars@),
        decreases chars@.len() - i,
    {
        let ghost rest = chars@.skip(i as int);
        let ghost done = texts(names@);
        match reference_at(&chars, i) {
            Some(name) => {
                let len: usize = name.as_str().unicode_len();
                proof {
                    assert(after_reference(rest, name@) == chars@.skip(i + len + 3));
                    assert(done + (seq![name@] + references(after_reference(rest, name@)))
                        == done.push(name@) + references(after_reference(rest, name@)));
                }
                names.push(name);
                assert(texts(names@) == done.push(name@));
                i = i + len + 3;
            },
            None => {
                assert(rest.skip(1) == chars@.skip(i + 1));
                i = i + 1;
            },
        }
    }
    assert(chars@.skip(i as int) == Seq::<char>::empty());
    assert(texts(names@) + Seq::<Seq<char>>::empty() == texts(names@));
    names
}

/// A variable that a configuration refers to has no value.
#[derive(Debug)]
pub struct MissingVar {
    pub name: String,
}

impl MissingVar {
    /// The message for the operator.
    pub fn message(&self) -> (text: String)
        ensures
            text@ == "env var "@ + self.name@ + " referenced in config but not set"@,
    {
        let mut text: String = "env var ".to_owned();
        text.append(self.name.as_str());
        text.append(" referenced in config but not set");
        text
    }
}

/// `input` with every `${VAR}` replaced by the value of the variable in `env`.
pub fn interpolate_env(input: &str, env: &StringMap<String>) -> (expanded: Result<
    String,
    MissingVar,
>)
    ensures
        (match expanded {
            Ok(text) => expand(input@, env_view(env@)) == Ok::<Seq<char>, Seq<char>>(text@),
            Err(missing) => expand(input@, env_view(env@)) == Err::<Seq<char>, Seq<char>>(
                missing.name@,
            ),
        }),
{
    let chars: Vec<char> = chars_of(input);
    let ghost vals = env_view(env@);
    let mut out: String = String::new();
    let mut i: usize = 0;
    proof {
        assert(chars@.skip(0) == chars@);
        lemma_behind_nothing(expand(chars@, vals));
    }
    while i < chars.len()
        invariant
            i <= chars@.len(),
            chars@ == input@,
            vals == env_view(env@),
            behind(out@, expand(chars@.skip(i as int), vals)) == expand(chars@, vals),
        decreases chars@.len() - i,
    {
        let ghost rest = chars@.skip(i as int);
        let ghost done = out@;
        match reference_at(&chars, i) {
            Some(name) => {
                let len: usize = name.as_str().unicode_len();
                assert(after_reference(rest, name@) == chars@.skip(i + len + 3));
                match env.get(name.as_str()) {
                    Some(value) => {
                        out.append(value.as_str());
                        proof {
                            lemma_behind_twice(
                                done,
                                vals[name@],
                                expand(after_reference(rest, name@), vals),
                            );
                        }
                        i = i + len + 3;
                    },
                    None => {
                        return Err(MissingVar { name });
                    },
                }
            },
            None => {
                out.push(chars[i]);
                proof {
                    assert(rest.skip(1) == chars@.skip(i + 1));
                    assert(out@ == done + seq![rest[0]]);
                    lemma_behind_twice(done, seq![rest[0]], expand(rest.skip(1), vals));
                }
                i = i + 1;
            },
        }
    }
    proof {
        assert(chars@.skip(i as int) == Seq::<char>::empty());
        assert(out@ + Seq::<char>::empty() == out@);
    }
    Ok(out)
}

proof fn lemma_behind_nothing(r: Result<Seq<char>, Seq<char>>)
    ensures
        behind(seq![], r) == r,
{
    if let Ok(t) = r {
        assert(Seq::<char>::empty() + t == t);
    }
}

proof fn lemma_behind_twice(a: Seq<char>, b: Seq<char>, r: Result<Seq<char>, Seq<char>>)
    ensures
        behind(a, behind(b, r)) == behind(a + b, r),
{
    if let Ok(t) = r {
        assert(a + (b + t) == a + b + t);
    }
}

/// Every name that a text refers to has a value exactly where the text expands;
/// where it does not, the name in the error is one that it refers to and that
/// has no value.
pub proof fn law_expands_iff_all_set(s: Seq<char>, env: Map<Seq<char>, Seq<char>>)
    ensures
        expand(s, env) is Ok <==> forall|i: int|
            0 <= i < references(s).len() ==> env.contains_key(#[trigger] references(s)[i]),
        expand(s, env) matches Err(name) ==> references(s).contains(name) && !env.contains_key(
            name,
        ),
    decreases s.len(),
{
    if s.len() > 0 {
        match reference(s) {
            Some(name) => {
                let rest = after_reference(s, name);
                lemma_name_len(s.skip(2));
                law_expands_iff_all_set(rest, env);
                let all = references(s);
                assert(all[0] == name);
                assert forall|i: int| 0 <= i < references(rest).len() implies references(rest)[i]
                    == #[trigger] all[i + 1] by {}
                assert forall|i: int| 0 < i < all.len() implies #[trigger] all[i] == references(
                    rest,
                )[i - 1] by {}
                if env.contains_key(name) {
                    if expand(rest, env) is Ok {
                        assert forall|i: int| 0 <= i < all.len() implies env.contains_key(
                            #[trigger] all[i],
                        ) by {
                            if i > 0 {
                                assert(env.contains_key(references(rest)[i - 1]));
                            }
                        }
                    } else {
                        let missing = expand(rest, env)->Err_0;
                        let k = choose|k: int|
                            0 <= k < references(rest).len() && references(rest)[k] == missing;
                        assert(all[k + 1] == missing);
                    }
                }
            },
            None => {
                law_expands_iff_all_set(s.skip(1), env);
            },
        }
    }
}

/// A text without references is left as it is.
pub proof fn law_plain_text_is_kept(s: Seq<char>, env: Map<Seq<char>, Seq<char>>)
    requires
        references(s).len() == 0,
    ensures
        expand(s, env) == Ok::<Seq<char>, Seq<char>>(s),
    decreases s.len(),
{
    if s.len() == 0 {
        assert(s == Seq::<char>::empty());
    } else {
        assert(reference(s) is None);
        law_plain_text_is_kept(s.skip(1), env);
        assert(seq![s[0]] + s.skip(1) == s);
    }
}

/// A name of a variable: capital letters of the alphabet, underscores and digits, of
/// which the first is no digit.
pub open spec fn is_name(name: Seq<char>) -> bool {
    &&& name.len() > 0
    &&& !('0' <= name[0] <= '9')
    &&& forall|i: int|
        0 <= i < name.len() ==> {
            ||| 'A' <= #[trigger] name[i] <= 'Z'
            ||| name[i] == '_'
            ||| '0' <= name[i] <= '9'
        }
}

proof fn lemma_name_then(name: Seq<char>, tail: Seq<char>)
    requires
        forall|i: int| 0 <= i < name.len() ==> in_name(#[trigger] name[i]),
        tail.len() == 0 || !in_name(tail[0]),
    ensures
        name_len(name + tail) == name.len(),
    decreases name.len(),
{
    let all = name + tail;
    if name.len() == 0 {
        assert(all =~= tail);
    } else {
        let rest = name.skip(1);
        assert(all[0] == name[0]);
        assert(all.skip(1) =~= rest + tail);
        assert forall|i: int| 0 <= i < rest.len() implies in_name(#[trigger] rest[i]) by {
            assert(rest[i] == name[i + 1]);
        }
        lemma_name_then(rest, tail);
    }
}

/// A reference is replaced by the value of its variable, whatever follows, and is
/// counted among the names; a variable without a value is what the error names.
pub proof fn law_reference_is_replaced(
    name: Seq<char>,
    rest: Seq<char>,
    env: Map<Seq<char>, Seq<char>>,
)
    requires
        is_name(name),
    ensures
        ({
            let s = seq!['$', '{'] + name + seq!['}'] + rest;
            &&& references(s) == seq![name] + references(rest)
            &&& !env.contains_key(name) ==> expand(s, env) == Err::<Seq<char>, Seq<char>>(name)
            &&& env.contains_key(name) ==> (match expand(rest, env) {
                Ok(t) => expand(s, env) == Ok::<Seq<char>, Seq<char>>(env[name] + t),
                Err(missing) => expand(s, env) == Err::<Seq<char>, Seq<char>>(missing),
            })
        }),
{
    let s = seq!['$', '{'] + name + seq!['}'] + rest;
    let tail = seq!['}'] + rest;
    assert forall|i: int| 0 <= i < name.len() implies in_name(#[trigger] name[i]) by {}
    lemma_name_then(name, tail);
    assert(s.skip(2) =~= name + tail);
    assert(s[2] == name[0]);
    let n = name.len() as int;
    assert(s[n + 2] == '}');
    assert(s.subrange(2, n + 2) =~= name);
    assert(after_reference(s, name) =~= rest);
    assert(reference(s) == Some(name));
}

/// What is no reference is kept as it stands: every character that is no dollar sign,
/// and a dollar sign that no braces with a name follow.
pub proof fn law_other_text_is_kept(c: char, rest: Seq<char>, env: Map<Seq<char>, Seq<char>>)
    requires
        c == '$' ==> forall|name: Seq<char>, tail: Seq<char>|
            is_name(name) ==> rest != #[trigger] (seq!['{'] + name + seq!['}'] + tail),
    ensures
        references(seq![c] + rest) == references(rest),
        match expand(rest, env) {
            Ok(t) => expand(seq![c] + rest, env) == Ok::<Seq<char>, Seq<char>>(seq![c] + t),
            Err(missing) => expand(seq![c] + rest, env) == Err::<Seq<char>, Seq<char>>(missing),
        },
{
    let s = seq![c] + rest;
    assert(s.skip(1) =~= rest);
    if let Some(name) = reference(s) {
        let n = name_len(s.skip(2));
        let tail = after_reference(s, name);
        lemma_name_len(s.skip(2));
        assert(name.len() == n);
        lemma_begins_name(s.skip(2));
        assert(name =~= s.skip(2).take(n));
        assert(is_name(name)) by {
            assert(name[0] == s[2]);
            assert forall|i: int| 0 <= i < name.len() implies {
                ||| 'A' <= #[trigger] name[i] <= 'Z'
                ||| name[i] == '_'
                ||| '0' <= name[i] <= '9'
            } by {
                assert(name[i] == s.skip(2)[i]);
                assert(in_name(s.skip(2)[i]));
            }
        }
        assert(rest =~= seq!['{'] + name + seq!['}'] + tail) by {
            assert forall|i: int| 0 <= i < rest.len() implies rest[i] == (seq!['{'] + name + seq![
                '}',
            ] + tail)[i] by {
                assert(rest[i] == s[i + 1]);
            }
        }
    }
}

proof fn lemma_begins_name(s: Seq<char>)
    ensures
        forall|i: int| 0 <= i < name_len(s) ==> in_name(#[trigger] s[i]),
        s.len() > 0 && begins_name(s[0]) ==> name_len(s) > 0,
    decreases s.len(),
{
    if s.len() > 0 && in_name(s[0]) {
        let rest = s.skip(1);
        lemma_begins_name(rest);
        lemma_name_len(rest);
        assert forall|i: int| 0 <= i < name_len(s) implies in_name(#[trigger] s[i]) by {
            if i > 0 {
                assert(rest[i - 1] == s[i]);
                assert(in_name(rest[i - 1]));
            }
        }
    }
}

/// The values of an environment are seen as they are, and an empty text has no
/// references.
pub proof fn law_values_are_seen(env: Map<Seq<char>, String>, name: Seq<char>)
    ensures
        env_view(env).contains_key(name) <==> env.contains_key(name),
        env.contains_key(name) ==> env_view(env)[name] == env[name]@,
        expand(Seq::empty(), env_view(env)) == Ok::<Seq<char>, Seq<char>>(Seq::empty()),
        references(Seq::empty()).len() == 0,
{
}

}

//! The forms of a key. A fact is published under one dotted key, such as
//! `info.width`; each surface of the context knows it under a form of its
//! own.

use vstd::prelude::*;

verus! {

/// `c` in upper case where it is an ASCII lower-case letter, else `c`.
pub open spec fn upper(c: char) -> char {
    if 'a' <= c && c <= 'z' {
        ((c as u8) - 32) as u8 as char
    } else {
        c
    }
}

/// What a dot becomes in a shell name.
pub open spec fn undotted(c: char) -> char {
    if c == '.' {
        '_'
    } else {
        c
    }
}

/// The name of `key` in the environment: every dot is an underscore
/// (`info.width` is `info_width`).
pub open spec fn shell_name(key: Seq<char>) -> Seq<char> {
    key.map_values(|c: char| undotted(c))
}

/// The name of `key` in the scripting namespace, in camel case: the dots are
/// left out, and a character that follows a dot is raised to upper case
/// (`info.width` is `infoWidth`).
pub open spec fn script_name(key: Seq<char>) -> Seq<char>
    decreases key.len(),
{
    if key.len() == 0 {
        key
    } else {
        let before = script_name(key.drop_last());
        if key.last() == '.' {
            before
        } else if key.len() >= 2 && key[key.len() - 2] == '.' {
            before.push(upper(key.last()))
        } else {
            before.push(key.last())
        }
    }
}

/// The scripting name character by character: a dot is left out; any other
/// character is kept, raised where a dot stands before it. The name of the
/// first `n` characters of `key` is the name of the `n - 1` before, and what
/// the last of them adds.
pub proof fn lemma_script_name_of(key: Seq<char>, n: int)
    requires
        0 <= n <= key.len(),
    ensures
        n == 0 ==> script_name(key.take(n)).len() == 0,
        n > 0 ==> script_name(key.take(n)) == if key[n - 1] == '.' {
            script_name(key.take(n - 1))
        } else if n >= 2 && key[n - 2] == '.' {
            script_name(key.take(n - 1)).push(upper(key[n - 1]))
        } else {
            script_name(key.take(n - 1)).push(key[n - 1])
        },
{
    if n > 0 {
        assert(key.take(n).drop_last() =~= key.take(n - 1));
    }
}

fn to_upper(c: char) -> (r: char)
    ensures
        r == upper(c),
{
    if 'a' <= c && c <= 'z' {
        ((c as u8) - 32) as char
    } else {
        c
    }
}

/// The name of `key` in the environment.
pub fn to_shell_name(key: &str) -> (name: String)
    ensures
        name@ == shell_name(key@),
{
    let mut name = String::new();
    for c in it: key.chars()
        invariant
            it.seq() == key@,
            name@ == shell_name(key@.take(it.index())),
    {
        proof {
            assert(key@.take(it.index() + 1) =~= key@.take(it.index()).push(c));
            assert(shell_name(key@.take(it.index()).push(c)) =~= shell_name(
                key@.take(it.index()),
            ).push(undotted(c)));
        }
        if c == '.' {
            name.push('_');
        } else {
            name.push(c);
        }
    }
    proof {
        assert(key@.take(key@.len() as int) =~= key@);
    }
    name
}

/// The name of `key` in the scripting namespace.
pub fn to_script_name(key: &str) -> (name: String)
    ensures
        name@ == script_name(key@),
{
    let mut name = String::new();
    let mut raise = false;
    for c in it: key.chars()
        invariant
            it.seq() == key@,
            name@ == script_name(key@.take(it.index())),
            raise <==> it.index() > 0 && key@[it.index() - 1] == '.',
    {
        proof {
            let grown = key@.take(it.index() + 1);
            assert(grown.drop_last() =~= key@.take(it.index()));
            assert(grown.last() == c);
        }
        if c == '.' {
            raise = true;
        } else {
            if raise {
                name.push(to_upper(c));
            } else {
                name.push(c);
            }
            raise = false;
        }
    }
    proof {
        assert(key@.take(key@.len() as int) =~= key@);
    }
    name
}

} // verus!

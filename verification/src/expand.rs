//! `${VAR}` / `$VAR` expansion in configuration strings.  Unknown variables
//! expand to the empty string; a `$` that starts no reference stays as it is.

use vstd::prelude::*;

use crate::matching::str_chars_vec;
use crate::table::lemma_lookup_absent;
use crate::table::lemma_lookup_at_index;
use crate::table::table_lookup;

verus! {

/// A character that may start a `$VAR` name.
pub open spec fn is_name_start(c: char) -> bool {
    ('A' <= c && c <= 'Z') || ('a' <= c && c <= 'z') || c == '_'
}

/// A character that may continue a `$VAR` name.
pub open spec fn is_name_char(c: char) -> bool {
    is_name_start(c) || ('0' <= c && c <= '9')
}

/// Index of the first `}` at or after `j`, if any.
pub open spec fn close_from(s: Seq<char>, j: int) -> Option<int>
    decreases s.len() - j,
{
    if j < 0 || j >= s.len() {
        None
    } else if s[j] == '}' {
        Some(j)
    } else {
        close_from(s, j + 1)
    }
}

/// End of the run of name characters starting at `j`.
pub open spec fn name_end(s: Seq<char>, j: int) -> int
    decreases s.len() - j,
{
    if j < 0 || j >= s.len() {
        j
    } else if is_name_char(s[j]) {
        name_end(s, j + 1)
    } else {
        j
    }
}

/// The value an environment table gives a variable: its entry's content, or
/// the empty string when the variable is unknown.
pub open spec fn env_value(env: Seq<(String, String)>, name: Seq<char>) -> Seq<char> {
    match table_lookup(env, name) {
        Option::Some(v) => v@,
        Option::None => Seq::<char>::empty(),
    }
}

/// The expansion of `s` from position `i` on: `${NAME}` (non-empty `NAME` up
/// to the first `}`) and `$NAME` (a maximal run of letters, digits and `_`,
/// starting with a non-digit) are replaced by the variable's value; every
/// other character, `$` included, is kept.
pub open spec fn expand_from(s: Seq<char>, env: Seq<(String, String)>, i: int) -> Seq<char>
    decreases s.len() - i,
{
    if i < 0 || i >= s.len() {
        Seq::<char>::empty()
    } else if s[i] != '$' {
        seq![s[i]] + expand_from(s, env, i + 1)
    } else if i + 1 < s.len() && s[i + 1] == '{' && (match close_from(s, i + 2) {
        Option::Some(c) => i + 2 < c < s.len(),
        Option::None => false,
    }) {
        let c = close_from(s, i + 2)->Some_0;
        if i + 2 < c < s.len() {
            env_value(env, s.subrange(i + 2, c)) + expand_from(s, env, c + 1)
        } else {
            Seq::<char>::empty()
        }
    } else if i + 1 < s.len() && is_name_start(s[i + 1]) && i + 1 < name_end(s, i + 1) <= s.len() {
        let e = name_end(s, i + 1);
        if i + 1 < e <= s.len() {
            env_value(env, s.subrange(i + 1, e)) + expand_from(s, env, e)
        } else {
            Seq::<char>::empty()
        }
    } else {
        seq![s[i]] + expand_from(s, env, i + 1)
    }
}

/// The expansion of a whole string.
pub open spec fn expand_spec(s: Seq<char>, env: Seq<(String, String)>) -> Seq<char> {
    expand_from(s, env, 0)
}

/// `close_from` finds exactly the first closing brace.
proof fn lemma_close_from_props(s: Seq<char>, j: int)
    requires
        0 <= j <= s.len(),
    ensures
        match close_from(s, j) {
            Option::Some(c) => j <= c < s.len() && s[c] == '}' && (forall|l: int|
                j <= l < c ==> s[l] != '}'),
            Option::None => forall|l: int| j <= l < s.len() ==> s[l] != '}',
        },
    decreases s.len() - j,
{
    if j < s.len() && s[j] != '}' {
        lemma_close_from_props(s, j + 1);
    }
}

/// `name_end` bounds: it moves only forward over name characters.
proof fn lemma_name_end_props(s: Seq<char>, j: int)
    requires
        0 <= j <= s.len(),
    ensures
        j <= name_end(s, j) <= s.len(),
        forall|l: int| j <= l < name_end(s, j) ==> is_name_char(s[l]),
        name_end(s, j) < s.len() ==> !is_name_char(s[name_end(s, j)]),
    decreases s.len() - j,
{
    if j < s.len() && is_name_char(s[j]) {
        lemma_name_end_props(s, j + 1);
    }
}

/// Character-content equality of two character lists.
fn chars_eq(a: &Vec<char>, b: &Vec<char>) -> (r: bool)
    ensures
        r == (a@ == b@),
{
    if a.len() != b.len() {
        assert(a@ != b@);
        return false;
    }
    let mut i: usize = 0;
    while i < a.len()
        invariant
            a@.len() == b@.len(),
            0 <= i <= a@.len(),
            forall|j: int| 0 <= j < i ==> a@[j] == b@[j],
        decreases a@.len() - i,
    {
        if a[i] != b[i] {
            assert(a@ != b@);
            return false;
        }
        i += 1;
    }
    assert(a@ =~= b@);
    true
}

/// Look a variable up in the environment table by character content.
fn env_lookup(env: &Vec<(String, String)>, name: &Vec<char>) -> (r: Option<String>)
    ensures
        r == table_lookup(env@, name@),
{
    let mut i: usize = 0;
    while i < env.len()
        invariant
            0 <= i <= env@.len(),
            forall|j: int| 0 <= j < i ==> env@[j].0@ != name@,
        decreases env@.len() - i,
    {
        let key_chars = str_chars_vec(env[i].0.as_str());
        if chars_eq(&key_chars, name) {
            proof {
                lemma_lookup_at_index(env@, name@, i as int);
            }
            return Some(env[i].1.clone());
        }
        i += 1;
    }
    proof {
        lemma_lookup_absent(env@, name@);
    }
    None
}

/// Whether the character may continue a `$VAR` name.
fn is_name_char_exec(c: char) -> (r: bool)
    ensures
        r == is_name_char(c),
{
    ('A' <= c && c <= 'Z') || ('a' <= c && c <= 'z') || c == '_' || ('0' <= c && c <= '9')
}

/// Append the variable's value (empty if unknown) to the output.
fn push_env_value(out: &mut Vec<char>, env: &Vec<(String, String)>, name: &Vec<char>)
    ensures
        final(out)@ == old(out)@ + env_value(env@, name@),
{
    match env_lookup(env, name) {
        Option::Some(v) => {
            let vc = str_chars_vec(v.as_str());
            let mut j: usize = 0;
            while j < vc.len()
                invariant
                    0 <= j <= vc@.len(),
                    out@ == old(out)@ + vc@.subrange(0, j as int),
                decreases vc@.len() - j,
            {
                let ghost pre = out@;
                out.push(vc[j]);
                proof {
                    assert(out@ =~= old(out)@ + vc@.subrange(0, j + 1));
                }
                j += 1;
            }
            proof {
                assert(vc@.subrange(0, vc@.len() as int) =~= vc@);
            }
        },
        Option::None => {
            proof {
                assert(out@ =~= old(out)@ + Seq::<char>::empty());
            }
        },
    }
}

/// Expand `${VAR}` and `$VAR` references in `s` against the environment
/// table; unknown variables become the empty string, and a `$` that starts
/// no reference is kept literally.
#[verifier::loop_isolation(false)]
#[verifier::rlimit(30)]
pub fn expand_vars(s: &str, env: &Vec<(String, String)>) -> (r: String)
    ensures
        r@ == expand_spec(s@, env@),
{
    let chars = str_chars_vec(s);
    let n = chars.len();
    let mut out: Vec<char> = Vec::new();
    let mut i: usize = 0;
    while i < n
        invariant
            0 <= i <= n,
            expand_spec(s@, env@) == out@ + expand_from(chars@, env@, i as int),
        decreases n - i,
    {
        let c = chars[i];
        if c != '$' {
            let ghost pre_out = out@;
            out.push(c);
            proof {
                assert(out@ =~= pre_out + seq![c]);
                assert((pre_out + seq![c]) + expand_from(chars@, env@, i + 1) =~= pre_out + (
                seq![c] + expand_from(chars@, env@, i + 1)));
            }
            i += 1;
        } else if i + 1 < n && chars[i + 1] == '{' {
            // Scan for the closing brace.
            let mut j: usize = i + 2;
            while j < n && chars[j] != '}'
                invariant
                    i + 2 <= j <= n,
                    forall|l: int| i + 2 <= l < j ==> chars@[l] != '}',
                decreases n - j,
            {
                j += 1;
            }
            proof {
                lemma_close_from_props(chars@, i + 2);
            }
            if j < n && j > i + 2 {
                // ${NAME}: collect the name and replace it.
                proof {
                    assert(close_from(chars@, i + 2) == Some(j as int));
                }
                let mut name: Vec<char> = Vec::new();
                let mut l: usize = i + 2;
                while l < j
                    invariant
                        i + 2 <= l <= j <= n,
                        name@ =~= chars@.subrange(i + 2, l as int),
                    decreases j - l,
                {
                    name.push(chars[l]);
                    l += 1;
                }
                proof {
                    assert(name@ =~= chars@.subrange(i + 2, j as int));
                }
                let ghost pre_out = out@;
                push_env_value(&mut out, env, &name);
                proof {
                    assert((pre_out + env_value(env@, name@)) + expand_from(
                        chars@,
                        env@,
                        j + 1,
                    ) =~= pre_out + (env_value(env@, name@) + expand_from(chars@, env@, j + 1)));
                }
                i = j + 1;
            } else {
                // No closing brace, or the empty "${}": keep the '$'.
                let ghost pre_out = out@;
                out.push(c);
                proof {
                    assert(out@ =~= pre_out + seq![c]);
                    assert((pre_out + seq![c]) + expand_from(chars@, env@, i + 1) =~= pre_out + (
                    seq![c] + expand_from(chars@, env@, i + 1)));
                }
                i += 1;
            }
        } else if i + 1 < n && (('A' <= chars[i + 1] && chars[i + 1] <= 'Z') || ('a' <= chars[i
            + 1] && chars[i + 1] <= 'z') || chars[i + 1] == '_') {
            // $NAME: take the maximal run of name characters.
            let mut e: usize = i + 1;
            while e < n && is_name_char_exec(chars[e])
                invariant
                    i + 1 <= e <= n,
                    forall|l: int| i + 1 <= l < e ==> is_name_char(chars@[l]),
                    name_end(chars@, i + 1) == name_end(chars@, e as int),
                decreases n - e,
            {
                e += 1;
            }
            proof {
                assert(name_end(chars@, e as int) == e);
                assert(name_end(chars@, i + 1) == e);
            }
            let mut name: Vec<char> = Vec::new();
            let mut l: usize = i + 1;
            while l < e
                invariant
                    i + 1 <= l <= e <= n,
                    name@ =~= chars@.subrange(i + 1, l as int),
                decreases e - l,
            {
                name.push(chars[l]);
                l += 1;
            }
            proof {
                assert(name@ =~= chars@.subrange(i + 1, e as int));
            }
            let ghost pre_out = out@;
            push_env_value(&mut out, env, &name);
            proof {
                assert((pre_out + env_value(env@, name@)) + expand_from(chars@, env@, e as int)
                    =~= pre_out + (env_value(env@, name@) + expand_from(chars@, env@, e as int)));
            }
            i = e;
        } else {
            // A lone '$' starts no reference.
            let ghost pre_out = out@;
            out.push(c);
            proof {
                assert(out@ =~= pre_out + seq![c]);
                assert((pre_out + seq![c]) + expand_from(chars@, env@, i + 1) =~= pre_out + (
                seq![c] + expand_from(chars@, env@, i + 1)));
            }
            i += 1;
        }
    }
    proof {
        assert(out@ =~= out@ + expand_from(chars@, env@, n as int));
    }
    crate::matching::chars_to_string(&out)
}

} // verus!

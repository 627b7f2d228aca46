//! Key and path text: how candidate keys are formed and how an explicit path
//! names its format.

use vstd::prelude::*;
use vstd::std_specs::iter::IteratorSpec;
use vstd::string::*;

verus! {

broadcast use vstd::string::group_string_axioms;

/// The key under which a resource named `base` is stored in the format that
/// claims the extension `ext`: `{base}.{ext}`.
pub open spec fn key_for(base: Seq<char>, ext: Seq<char>) -> Seq<char> {
    base + seq!['.'] + ext
}

/// Whether `at` is the position of the last `.` in `path`.
pub open spec fn is_last_dot(path: Seq<char>, at: int) -> bool {
    &&& 0 <= at < path.len()
    &&& path[at] == '.'
    &&& forall|j: int| at < j < path.len() ==> path[j] != '.'
}

/// The extension of `path`: everything after its last `.`, or nothing when
/// it has no `.` at all. The extension may be empty (`"data."`).
pub open spec fn extension(path: Seq<char>) -> Option<Seq<char>> {
    if exists|at: int| is_last_dot(path, at) {
        let at = choose|at: int| is_last_dot(path, at);
        Some(path.subrange(at + 1, path.len() as int))
    } else {
        None
    }
}

/// A path has at most one last dot.
pub proof fn lemma_last_dot_unique(path: Seq<char>, a: int, b: int)
    requires
        is_last_dot(path, a),
        is_last_dot(path, b),
    ensures
        a == b,
{
    if a < b {
        assert(path[b] != '.');
    } else if b < a {
        assert(path[a] != '.');
    }
}

/// A path has an extension exactly when it holds a `.`.
pub proof fn lemma_extension_iff_dot(path: Seq<char>)
    ensures
        extension(path) is Some <==> path.contains('.'),
{
    if path.contains('.') {
        let i = choose|i: int| 0 <= i < path.len() && path[i] == '.';
        lemma_has_last_dot(path, i);
    } else if exists|at: int| is_last_dot(path, at) {
        let at = choose|at: int| is_last_dot(path, at);
        assert(path.contains(path[at]));
    }
}

/// From any `.` onward there is a last one.
proof fn lemma_has_last_dot(path: Seq<char>, i: int)
    requires
        0 <= i < path.len(),
        path[i] == '.',
    ensures
        exists|at: int| is_last_dot(path, at),
    decreases path.len() - i,
{
    if exists|j: int| i < j < path.len() && path[j] == '.' {
        let j = choose|j: int| i < j < path.len() && path[j] == '.';
        lemma_has_last_dot(path, j);
    } else {
        assert(is_last_dot(path, i));
    }
}

/// `str`'s `==`: whether two texts hold the same characters.
#[verifier::external_body]
pub(crate) fn same_text(a: &str, b: &str) -> (same: bool)
    ensures
        same == (a@ == b@),
{
    a == b
}

/// The characters of `s`, one by one.
pub fn chars_of(s: &str) -> (chars: Vec<char>)
    ensures
        chars@ == s@,
{
    let mut chars: Vec<char> = Vec::new();
    let mut rest = s.chars();
    loop
        invariant
            chars@ + rest.remaining() == s@,
            rest.obeys_prophetic_iter_laws(),
            rest.decrease() is Some,
        ensures
            chars@ == s@,
        decreases rest.decrease()->0,
    {
        match rest.next() {
            Some(c) => {
                chars.push(c);
                assert(chars@ + rest.remaining() =~= s@);
            },
            None => {
                assert(chars@ =~= s@);
                break ;
            },
        }
    }
    chars
}

/// Forms the candidate key `{base}.{ext}`.
pub fn candidate_key(base: &str, ext: &str) -> (key: String)
    ensures
        key@ == key_for(base@, ext@),
{
    proof {
        reveal_strlit(".");
    }
    assert("."@ =~= seq!['.']);
    String::from_str(base).concat(".").concat(ext)
}

/// The extension of `path`, by which an explicit load picks its format.
pub fn extension_of(path: &str) -> (ext: Option<&str>)
    ensures
        match ext {
            Some(e) => extension(path@) == Some(e@),
            None => extension(path@) is None,
        },
{
    let chars = chars_of(path);
    let mut at: usize = chars.len();
    while at > 0 && chars[at - 1] != '.'
        invariant
            at <= chars.len(),
            forall|j: int| at <= j < chars.len() ==> chars@[j] != '.',
        decreases at,
    {
        at = at - 1;
    }
    if at == 0 {
        proof {
            if exists|k: int| is_last_dot(path@, k) {
                let k = choose|k: int| is_last_dot(path@, k);
                assert(chars@[k] != '.');
            }
        }
        None
    } else {
        proof {
            assert(is_last_dot(path@, at - 1));
            let k = choose|k: int| is_last_dot(path@, k);
            lemma_last_dot_unique(path@, k, at - 1);
        }
        Some(path.substring_char(at, chars.len()))
    }
}

} // verus!

//! File names and their extensions, on paths whose components are
//! separated by `/`. A path is taken as it is written: nothing is resolved,
//! and a path that ends with a separator has no file name.

use vstd::prelude::*;
use vstd::string::{StrSliceExecFns, StringExecFns};

verus! {

/// `i` is where the extension of the path's last component begins: a dot
/// that is not the first character of that component, with neither a dot nor
/// a separator behind it.
pub open spec fn is_extension_dot(path: Seq<char>, i: int) -> bool {
    &&& 0 < i < path.len()
    &&& path[i] == '.'
    &&& path[i - 1] != '/'
    &&& forall|j: int| i < j < path.len() ==> #[trigger] path[j] != '.' && path[j] != '/'
}

/// The path's last component has an extension.
pub open spec fn has_extension(path: Seq<char>) -> bool {
    exists|i: int| is_extension_dot(path, i)
}

/// Where the path ends once its extension is taken off: at the extension's
/// dot, or at the end of a path that has none.
pub open spec fn stem_end(path: Seq<char>) -> int {
    if has_extension(path) {
        choose|i: int| is_extension_dot(path, i)
    } else {
        path.len() as int
    }
}

/// The extension of the path's last component, without its dot.
pub open spec fn extension_of(path: Seq<char>) -> Option<Seq<char>> {
    if has_extension(path) {
        Some(path.skip(stem_end(path) + 1))
    } else {
        None
    }
}

/// The path with its extension replaced by `extension`, or with a dot and
/// `extension` added where it had none.
pub open spec fn with_extension(path: Seq<char>, extension: Seq<char>) -> Seq<char> {
    path.take(stem_end(path)) + seq!['.'] + extension
}

/// A path has at most one extension dot.
pub proof fn lemma_extension_dot_unique(path: Seq<char>, i: int, j: int)
    requires
        is_extension_dot(path, i),
        is_extension_dot(path, j),
    ensures
        i == j,
{
    if i < j {
        assert(path[j] != '.');
    } else if j < i {
        assert(path[i] != '.');
    }
}

/// Finds the dot before the extension of the path's last component.
pub fn extension_dot(path: &str) -> (r: Option<usize>)
    ensures
        r is Some <==> has_extension(path@),
        r matches Some(i) ==> is_extension_dot(path@, i as int) && i == stem_end(path@),
{
    let n = path.unicode_len();
    let mut end: usize = n;
    while end > 0
        invariant
            end <= n,
            n == path@.len(),
            forall|j: int| end <= j < n ==> #[trigger] path@[j] != '.' && path@[j] != '/',
        decreases end,
    {
        let c = path.get_char(end - 1);
        if c == '.' && end - 1 > 0 && path.get_char(end - 2) != '/' {
            proof {
                assert(is_extension_dot(path@, end - 1));
                lemma_extension_dot_unique(path@, end - 1, stem_end(path@));
            }
            return Some(end - 1);
        }
        if c == '.' || c == '/' {
            assert forall|i: int| !is_extension_dot(path@, i) by {
                if is_extension_dot(path@, i) && i < end - 1 {
                    assert(path@[end - 1] != '.' && path@[end - 1] != '/');
                }
            }
            return None;
        }
        end -= 1;
    }
    assert forall|i: int| !is_extension_dot(path@, i) by {}
    None
}

/// Whether two texts are the same.
pub fn same_text(a: &str, b: &str) -> (r: bool)
    ensures
        r == (a@ == b@),
{
    String::from_str(a) == String::from_str(b)
}

/// Whether the path's last component has exactly the given extension.
pub fn extension_is(path: &str, extension: &str) -> (r: bool)
    ensures
        r == (extension_of(path@) == Some(extension@)),
{
    match extension_dot(path) {
        Some(i) => {
            let n = path.unicode_len();
            let found = path.substring_char(i + 1, n);
            assert(found@ =~= path@.skip(i + 1));
            same_text(found, extension)
        },
        None => false,
    }
}

/// The path with its extension replaced by `extension`, or with a dot and
/// `extension` added where it had none.
pub fn replace_extension(path: &str, extension: &str) -> (r: String)
    ensures
        r@ == with_extension(path@, extension@),
{
    let stem = match extension_dot(path) {
        Some(i) => path.substring_char(0, i),
        None => path,
    };
    proof {
        reveal_strlit(".");
        assert(stem@ =~= path@.take(stem_end(path@)));
        assert("."@ =~= seq!['.']);
    }
    String::from_str(stem).concat(".").concat(extension)
}

/// `name` adjoined to `base`: a separator goes between them unless `base`
/// is empty or ends with one already.
pub open spec fn joined(base: Seq<char>, name: Seq<char>) -> Seq<char> {
    if base.len() == 0 || base.last() == '/' {
        base + name
    } else {
        base + seq!['/'] + name
    }
}

/// Adjoins a relative `name` to `base`.
pub fn join_path(base: &str, name: &str) -> (r: String)
    ensures
        r@ == joined(base@, name@),
{
    let n = base.unicode_len();
    if n == 0 || base.get_char(n - 1) == '/' {
        String::from_str(base).concat(name)
    } else {
        proof {
            reveal_strlit("/");
            assert("/"@ =~= seq!['/']);
        }
        String::from_str(base).concat("/").concat(name)
    }
}

} // verus!

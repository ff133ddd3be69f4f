//! File-system paths as text: the final component, its stem and extension,
//! joining, and case folding of extensions.
//!
//! What the final component of a path is, and how two paths are joined, is
//! left to `std::path` and so follows the rules of the platform that the
//! library is built for. How a file name splits into stem and extension is
//! decided here, by the rule that `std::path` documents.

use vstd::prelude::*;
use crate::text::{chars_of, string_of};

verus! {

/// The final component of a path, as `std::path::Path::file_name` reports it.
pub uninterp spec fn file_name_of(path: Seq<char>) -> Option<Seq<char>>;

/// The path that `std::path::Path::join` makes of a base and a further part.
pub uninterp spec fn joined(base: Seq<char>, part: Seq<char>) -> Seq<char>;

/// The lower-case form of a text, as `str::to_lowercase` gives it.
pub uninterp spec fn lowercase_of(s: Seq<char>) -> Seq<char>;

/// Calls `std::path::Path::file_name`. The contract only gives the result its
/// name: the same path text always has the same final component.
#[verifier::external_body]
pub(crate) fn file_name(path: &str) -> (out: Option<String>)
    ensures
        out is Some == file_name_of(path@) is Some,
        out matches Some(name) ==> file_name_of(path@) == Some(name@),
{
    match std::path::Path::new(path).file_name() {
        Some(name) => Some(name.to_string_lossy().into_owned()),
        None => None,
    }
}

/// Calls `std::path::Path::join`. The contract only gives the result its name.
#[verifier::external_body]
pub(crate) fn join(base: &str, part: &str) -> (out: String)
    ensures
        out@ == joined(base@, part@),
{
    std::path::Path::new(base).join(part).to_string_lossy().into_owned()
}

/// Calls `str::to_lowercase`. The contract only gives the result its name.
#[verifier::external_body]
pub(crate) fn lowercase(s: &str) -> (out: String)
    ensures
        out@ == lowercase_of(s@),
{
    s.to_lowercase()
}

/// Position of the last `.` of `name`, or -1 where it has none.
pub open spec fn last_dot(name: Seq<char>) -> int
    decreases name.len(),
{
    if name.len() == 0 {
        -1
    } else if name.last() == '.' {
        name.len() - 1
    } else {
        last_dot(name.drop_last())
    }
}

/// The extension of a file name: what follows its last `.`, unless the name
/// has no `.` or only a leading one.
pub open spec fn extension_in(name: Seq<char>) -> Option<Seq<char>> {
    let d = last_dot(name);
    if d <= 0 {
        None
    } else {
        Some(name.skip(d + 1))
    }
}

/// The stem of a file name: what precedes its last `.`, or the whole name
/// where it has no extension.
pub open spec fn stem_in(name: Seq<char>) -> Seq<char> {
    let d = last_dot(name);
    if d <= 0 {
        name
    } else {
        name.take(d)
    }
}

/// The extension of the final component of `path`.
pub open spec fn extension_of(path: Seq<char>) -> Option<Seq<char>> {
    match file_name_of(path) {
        Some(name) => extension_in(name),
        None => None,
    }
}

/// A name is its stem, followed by `.` and the extension where it has one.
pub proof fn lemma_stem_and_extension(name: Seq<char>)
    ensures
        -1 <= last_dot(name) < name.len(),
        last_dot(name) >= 0 ==> name[last_dot(name)] == '.',
        forall|i: int| last_dot(name) < i < name.len() ==> name[i] != '.',
        extension_in(name) matches Some(e) ==> name == stem_in(name).push('.') + e,
        extension_in(name) is None ==> name == stem_in(name),
    decreases name.len(),
{
    if name.len() > 0 && name.last() != '.' {
        lemma_stem_and_extension(name.drop_last());
        assert forall|i: int| last_dot(name) < i < name.len() implies name[i] != '.' by {
            if i < name.len() - 1 {
                assert(name.drop_last()[i] == name[i]);
            }
        }
        if last_dot(name) >= 0 {
            assert(name.drop_last()[last_dot(name)] == name[last_dot(name)]);
        }
    }
    let d = last_dot(name);
    if d > 0 {
        assert(name =~= name.take(d).push('.') + name.skip(d + 1));
    }
}

fn find_last_dot(name: &Vec<char>) -> (d: Option<usize>)
    ensures
        d is None == (last_dot(name@) == -1),
        d matches Some(i) ==> i == last_dot(name@),
{
    let mut i: usize = name.len();
    assert(name@.take(i as int) == name@);
    while i > 0
        invariant
            i <= name.len(),
            last_dot(name@) == last_dot(name@.take(i as int)),
        decreases i,
    {
        assert(name@.take(i as int).last() == name@[i as int - 1]);
        if name[i - 1] == '.' {
            return Some(i - 1);
        }
        assert(name@.take(i as int).drop_last() == name@.take(i as int - 1));
        i -= 1;
    }
    assert(name@.take(0).len() == 0);
    None
}

/// Splits a file name into its stem and its extension.
pub fn split_file_name(name: &str) -> (out: (String, Option<String>))
    ensures
        out.0@ == stem_in(name@),
        out.1 is Some == extension_in(name@) is Some,
        out.1 matches Some(e) ==> extension_in(name@) == Some(e@),
{
    let chars = chars_of(name);
    proof {
        lemma_stem_and_extension(chars@);
    }
    match find_last_dot(&chars) {
        Some(d) => {
            if d == 0 {
                (string_of(&chars), None)
            } else {
                let mut stem: Vec<char> = Vec::new();
                let mut ext: Vec<char> = Vec::new();
                let mut i: usize = 0;
                while i < d
                    invariant
                        i <= d < chars.len(),
                        stem@ == chars@.take(i as int),
                    decreases d - i,
                {
                    stem.push(chars[i]);
                    i += 1;
                    assert(chars@.take(i as int) == chars@.take(i as int - 1).push(
                        chars@[i as int - 1],
                    ));
                }
                let mut j: usize = d + 1;
                while j < chars.len()
                    invariant
                        d < j <= chars.len(),
                        ext@ == chars@.subrange(d as int + 1, j as int),
                    decreases chars.len() - j,
                {
                    ext.push(chars[j]);
                    j += 1;
                    assert(chars@.subrange(d as int + 1, j as int) == chars@.subrange(
                        d as int + 1,
                        j as int - 1,
                    ).push(chars@[j as int - 1]));
                }
                assert(chars@.subrange(d as int + 1, chars.len() as int) == chars@.skip(
                    d as int + 1,
                ));
                (string_of(&stem), Some(string_of(&ext)))
            }
        },
        None => (string_of(&chars), None),
    }
}

/// The extension of the final component of `path`, where it has one.
pub fn extension(path: &str) -> (out: Option<String>)
    ensures
        out is Some == extension_of(path@) is Some,
        out matches Some(e) ==> extension_of(path@) == Some(e@),
{
    match file_name(path) {
        Some(name) => split_file_name(name.as_str()).1,
        None => None,
    }
}

/// The extension of the final component of `path`, folded to lower case.
pub open spec fn folded_extension_of(path: Seq<char>) -> Option<Seq<char>> {
    match extension_of(path) {
        Some(e) => Some(lowercase_of(e)),
        None => None,
    }
}

/// The extension of the final component of `path`, folded to lower case.
pub fn folded_extension(path: &str) -> (out: Option<String>)
    ensures
        out is Some == folded_extension_of(path@) is Some,
        out matches Some(e) ==> folded_extension_of(path@) == Some(e@),
{
    match extension(path) {
        Some(e) => Some(lowercase(e.as_str())),
        None => None,
    }
}

} // verus!

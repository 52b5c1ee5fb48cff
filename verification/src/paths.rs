//! The pieces of a path that the rules read, taken by std.
use vstd::prelude::*;

verus! {

/// The last component of a path, as `std::path::Path::file_name` finds it with the separators
/// of the target the library is compiled for.
pub uninterp spec fn path_file_name(path: Seq<char>) -> Option<Seq<char>>;

/// The place of the last dot of a name, `-1` where it has none.
pub open spec fn last_dot(name: Seq<char>) -> int
    decreases name.len(),
{
    if name.len() == 0 {
        -1
    } else if name.last() == '.' {
        name.len() - 1
    } else {
        last_dot(name.drop_last())
    }
}

/// The file name of a path up to its last dot; all of it where it has no dot but a leading one.
pub open spec fn path_file_stem(path: Seq<char>) -> Option<Seq<char>> {
    match path_file_name(path) {
        Some(name) => Some(
            if last_dot(name) > 0 {
                name.take(last_dot(name))
            } else {
                name
            },
        ),
        None => None,
    }
}

/// What stands behind the last dot of a path's file name; none where it has no dot but a leading
/// one.
pub open spec fn path_extension(path: Seq<char>) -> Option<Seq<char>> {
    match path_file_name(path) {
        Some(name) => if last_dot(name) > 0 {
            Some(name.skip(last_dot(name) + 1))
        } else {
            None
        },
        None => None,
    }
}

/// A string in lower case by the Unicode tables of std's `str::to_lowercase`.
pub uninterp spec fn unicode_lowercase(s: Seq<char>) -> Seq<char>;

/// The view of an optional string.
pub open spec fn text_of(s: Option<String>) -> Option<Seq<char>> {
    match s {
        Some(s) => Some(s@),
        None => None,
    }
}

/// `std::path::Path::file_name`: the result is [`path_file_name`]; a path given as `&str` has a
/// name that is text.
#[verifier::external_body]
pub(crate) fn file_name_of(path: &str) -> (r: Option<String>)
    ensures
        text_of(r) == path_file_name(path@),
{
    std::path::Path::new(path).file_name().map(|n| n.to_string_lossy().into_owned())
}

/// `std::path::Path::file_stem`: the file name before its final dot, or all of it where there is no
/// dot but one that it begins with.
#[verifier::external_body]
pub(crate) fn file_stem_of(path: &str) -> (r: Option<String>)
    ensures
        text_of(r) == path_file_stem(path@),
{
    std::path::Path::new(path).file_stem().map(|n| n.to_string_lossy().into_owned())
}

/// `std::path::Path::extension`: the file name after its final dot, none where there is no dot but
/// one that it begins with.
#[verifier::external_body]
pub(crate) fn extension_of(path: &str) -> (r: Option<String>)
    ensures
        text_of(r) == path_extension(path@),
{
    std::path::Path::new(path).extension().map(|n| n.to_string_lossy().into_owned())
}

/// `str::to_lowercase`: the result is [`unicode_lowercase`].
#[verifier::external_body]
pub(crate) fn to_lowercase(s: &str) -> (r: String)
    ensures
        r@ == unicode_lowercase(s@),
{
    s.to_lowercase()
}

/// `std::path::Path::parent` of a path: the path without its last component, none where it ends in
/// a root or a prefix.
pub uninterp spec fn path_parent(path: Seq<char>) -> Option<Seq<char>>;

/// `std::path::Path::parent`: the result is [`path_parent`].
#[verifier::external_body]
pub(crate) fn parent_of(path: &str) -> (r: Option<String>)
    ensures
        text_of(r) == path_parent(path@),
{
    std::path::Path::new(path).parent().map(|n| n.to_string_lossy().into_owned())
}

proof fn lemma_last_dot(name: Seq<char>)
    ensures
        -1 <= last_dot(name) < name.len(),
        last_dot(name) >= 0 ==> name[last_dot(name)] == '.',
        forall|k: int| last_dot(name) < k < name.len() ==> #[trigger] name[k] != '.',
    decreases name.len(),
{
    if name.len() > 0 && name.last() != '.' {
        lemma_last_dot(name.drop_last());
        assert forall|k: int| last_dot(name) < k < name.len() implies #[trigger] name[k] != '.' by {
            if k < name.len() - 1 {
                assert(name.drop_last()[k] == name[k]);
            }
        }
    }
}

/// A name with an extension is its stem, a dot and the extension, which holds no further dot; a
/// dot at the front begins no extension. Without one the stem is the whole name.
pub proof fn law_stem_dot_extension(path: Seq<char>)
    ensures
        path_file_name(path) is None <==> path_file_stem(path) is None,
        path_extension(path) is Some ==> path_file_name(path) is Some,
        path_extension(path) matches Some(e) ==> path_file_name(path)->0 == path_file_stem(path)->0
            + seq!['.'] + e && path_file_stem(path)->0.len() > 0 && forall|k: int|
            0 <= k < e.len() ==> #[trigger] e[k] != '.',
        path_file_name(path) is Some && path_extension(path) is None ==> path_file_stem(path)
            == path_file_name(path),
        path_file_name(path) matches Some(n) ==> (path_extension(path) is Some <==> exists|k: int|
            0 < k < n.len() && #[trigger] n[k] == '.'),
{
    if path_file_name(path) is Some {
        let n = path_file_name(path)->0;
        lemma_last_dot(n);
        let d = last_dot(n);
        if d > 0 {
            assert(n =~= n.take(d) + seq!['.'] + n.skip(d + 1));
            assert(n[d] == '.');
            assert forall|k: int| 0 <= k < n.skip(d + 1).len() implies #[trigger] n.skip(d + 1)[k]
                != '.' by {
                assert(n.skip(d + 1)[k] == n[d + 1 + k]);
            }
        }
    }
}

} // verus!

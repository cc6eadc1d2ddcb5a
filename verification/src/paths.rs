//! The path by which the parameter file is handed on.

use vstd::prelude::*;
use vstd::string::StrSliceExecFns;

verus! {

/// Why a parameter file cannot be handed on.
#[derive(Clone, Copy, Debug, PartialEq, Eq, Structural)]
pub enum PathError {
    /// No path leads from the directory to the file.
    Unrelated,
    /// The path holds a NUL character, which ends a path for the reader.
    HoldsNul,
}

/// What `pathdiff::diff_paths` makes of a path and a base, both as text,
/// under the path syntax of the platform that the library is built for.
pub uninterp spec fn relative_path(path: Seq<char>, base: Seq<char>) -> Option<Seq<char>>;

/// Calls `pathdiff::diff_paths`, which builds the relative path that leads
/// from `base` to `path` by comparing their components, looks at nothing
/// but its two arguments and always returns. The path it finds is handed
/// back as text. Not proved: that the result is `relative_path` of the
/// two arguments. Nothing more is claimed of it.
#[verifier::external_body]
fn diff_paths(path: &str, base: &str) -> (r: Option<String>)
    ensures
        match r {
            Some(p) => relative_path(path@, base@) == Some(p@),
            None => relative_path(path@, base@).is_none(),
        },
{
    pathdiff::diff_paths(path, base).map(|p| p.display().to_string())
}

/// The path `relative` can be handed on: there is one, and no NUL
/// character stands in it.
pub open spec fn usable(relative: Option<Seq<char>>) -> Result<Seq<char>, PathError> {
    match relative {
        None => Err(PathError::Unrelated),
        Some(p) => if p.contains('\0') {
            Err(PathError::HoldsNul)
        } else {
            Ok(p)
        },
    }
}

/// A path that may be missing, as text.
pub open spec fn text_of(relative: Option<String>) -> Option<Seq<char>> {
    match relative {
        Some(p) => Some(p@),
        None => None,
    }
}

/// Checks a relative path before it is handed on.
pub fn check_relative(relative: Option<String>) -> (r: Result<String, PathError>)
    ensures
        match r {
            Ok(p) => usable(text_of(relative)) == Ok::<Seq<char>, PathError>(p@),
            Err(e) => usable(text_of(relative)) == Err::<Seq<char>, PathError>(e),
        },
{
    match relative {
        None => Err(PathError::Unrelated),
        Some(p) => {
            let n: usize = p.as_str().unicode_len();
            let mut i: usize = 0;
            while i < n
                invariant
                    i <= n,
                    n == p@.len(),
                    text_of(relative) == Some(p@),
                    forall|j: int| 0 <= j < i ==> p@[j] != '\0',
                decreases n - i,
            {
                if p.as_str().get_char(i) == '\0' {
                    assert(p@[i as int] == '\0');
                    assert(p@.contains('\0'));
                    return Err(PathError::HoldsNul);
                }
                i += 1;
            }
            Ok(p)
        },
    }
}

/// The path of the parameter file `file` as seen from the directory
/// `directory`, ready to be handed on.
pub fn parameter_path(file: &str, directory: &str) -> (r: Result<String, PathError>)
    ensures
        match r {
            Ok(p) => usable(relative_path(file@, directory@)) == Ok::<Seq<char>, PathError>(p@),
            Err(e) => usable(relative_path(file@, directory@)) == Err::<Seq<char>, PathError>(e),
        },
{
    check_relative(diff_paths(file, directory))
}

} // verus!

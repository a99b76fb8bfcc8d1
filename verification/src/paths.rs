//! File-system path text: joining a relative component onto a directory, and
//! the parts of a path that `std::path::Path` computes (file stem, extension,
//! parent, ordering), taken by their string form.
use vstd::prelude::*;
use crate::text::{concat2, copy_str};

verus! {

/// `Path::file_stem` of a path, as text.
pub uninterp spec fn spec_file_stem(p: Seq<char>) -> Option<Seq<char>>;

/// `Path::extension` of a path, as text.
pub uninterp spec fn spec_extension(p: Seq<char>) -> Option<Seq<char>>;

/// `Path::parent` of a path, as text.
pub uninterp spec fn spec_parent(p: Seq<char>) -> Option<Seq<char>>;

/// `Path::cmp` of two paths as -1, 0 or 1.
pub uninterp spec fn spec_path_order(a: Seq<char>, b: Seq<char>) -> int;

/// The final component of `p` without its extension (`Path::file_stem`).
#[verifier::external_body]
pub(crate) fn file_stem(p: &str) -> (r: Option<String>)
    ensures
        r.deep_view() == spec_file_stem(p@),
{
    match std::path::Path::new(p).file_stem() {
        Some(s) => Some(s.to_string_lossy().into_owned()),
        None => None,
    }
}

/// The extension of the final component of `p` (`Path::extension`).
#[verifier::external_body]
pub(crate) fn extension(p: &str) -> (r: Option<String>)
    ensures
        r.deep_view() == spec_extension(p@),
{
    match std::path::Path::new(p).extension() {
        Some(s) => Some(s.to_string_lossy().into_owned()),
        None => None,
    }
}

/// `p` without its final component (`Path::parent`).
#[verifier::external_body]
pub(crate) fn parent(p: &str) -> (r: Option<String>)
    ensures
        r.deep_view() == spec_parent(p@),
{
    match std::path::Path::new(p).parent() {
        Some(s) => Some(s.to_string_lossy().into_owned()),
        None => None,
    }
}

/// Component-wise ordering of two paths (`Path::cmp`): -1, 0 or 1. `Ord`
/// makes it a total order: swapping the arguments reverses the answer, and
/// two paths that compare equal compare alike with every other path.
#[verifier::external_body]
pub(crate) fn path_order(a: &str, b: &str) -> (r: i8)
    ensures
        r == spec_path_order(a@, b@),
        -1 <= r <= 1,
        spec_path_order(b@, a@) == -r,
        r == 0 ==> forall|c: Seq<char>|
            #![trigger spec_path_order(a@, c)]
            #![trigger spec_path_order(b@, c)]
            spec_path_order(a@, c) == spec_path_order(b@, c),
        r == 0 ==> forall|c: Seq<char>|
            #![trigger spec_path_order(c, a@)]
            #![trigger spec_path_order(c, b@)]
            spec_path_order(c, a@) == spec_path_order(c, b@),
{
    match std::path::Path::new(a).cmp(std::path::Path::new(b)) {
        std::cmp::Ordering::Less => -1,
        std::cmp::Ordering::Equal => 0,
        std::cmp::Ordering::Greater => 1,
    }
}

/// `base` with the relative component `comp` appended (`Path::join` on
/// Unix): a `/` is inserted unless `base` is empty or already ends in `/`.
pub open spec fn spec_join(base: Seq<char>, comp: Seq<char>) -> Seq<char> {
    if base.len() == 0 {
        comp
    } else if base.last() == '/' {
        base + comp
    } else {
        base + seq!['/'] + comp
    }
}

/// Appends a relative component (one that does not start with `/`) to `base`.
pub fn join_path(base: &str, comp: &str) -> (r: String)
    requires
        comp@.len() > 0,
        comp@[0] != '/',
    ensures
        r@ == spec_join(base@, comp@),
{
    let n = base.unicode_len();
    if n == 0 {
        copy_str(comp)
    } else if base.get_char(n - 1) == '/' {
        concat2(base, comp)
    } else {
        let mut r = concat2(base, "/");
        r.append(comp);
        proof {
            reveal_strlit("/");
        }
        assert("/"@ =~= seq!['/']);
        r
    }
}

} // verus!

//! The order of file paths, component by component.
use vstd::prelude::*;

verus! {

/// The order of two paths as `std::path::Path` orders them (component by
/// component): -1, 0 or 1.
pub uninterp spec fn path_order(a: Seq<char>, b: Seq<char>) -> int;

/// Compares two paths as `Path` does.
///
/// Trusted: `Ord::cmp` on `std::path::Path`, mapped to -1, 0 and 1; the order
/// is named [`path_order`], and, `Ord` being a total order, swapping the
/// operands negates the result.
#[verifier::external_body]
pub(crate) fn compare_paths(a: &str, b: &str) -> (r: i8)
    ensures
        r == path_order(a@, b@),
        r == -1 || r == 0 || r == 1,
        path_order(b@, a@) == -r,
{
    match std::path::Path::new(a).cmp(std::path::Path::new(b)) {
        std::cmp::Ordering::Less => -1,
        std::cmp::Ordering::Equal => 0,
        std::cmp::Ordering::Greater => 1,
    }
}

} // verus!

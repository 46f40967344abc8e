use crate::text::{ends_with, is_prefix, is_suffix, starts_with};
use vstd::prelude::*;

verus! {

/// Joining a path and a component as `PathBuf::push` does on Unix: an
/// absolute component replaces the path; otherwise a separator is put
/// between the two unless the path is empty or already ends in one.
pub open spec fn spec_join(base: Seq<char>, part: Seq<char>) -> Seq<char> {
    if is_prefix("/"@, part) {
        part
    } else if base.len() == 0 || is_suffix("/"@, base) {
        base + part
    } else {
        base + "/"@ + part
    }
}

pub fn join_path(base: &str, part: &str) -> (r: String)
    ensures
        r@ == spec_join(base@, part@),
{
    if starts_with(part, "/") {
        return String::from_str(part);
    }
    let mut s = String::from_str(base);
    if base.unicode_len() == 0 || ends_with(base, "/") {
        s.append(part);
    } else {
        s.append("/");
        s.append(part);
    }
    s
}

} // verus!

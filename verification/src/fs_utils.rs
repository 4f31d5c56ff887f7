//! Utilities on relative filesystem paths, written as plain `/`-joined
//! strings.

use crate::error::Error;
use crate::text::str_eq;
use vstd::prelude::*;

verus! {

/// `path` relative to `prefix`: empty when they are equal, the part
/// after `prefix/` when `path` lies under `prefix`, nothing otherwise.
pub open spec fn strip_prefix_spec(path: Seq<char>, prefix: Seq<char>) -> Option<Seq<char>> {
    if path == prefix {
        Some(Seq::empty())
    } else if path.len() > prefix.len() && path.take(prefix.len() as int) == prefix && path[
        prefix.len() as int
    ] == '/' {
        Some(path.skip(prefix.len() as int + 1))
    } else {
        None
    }
}

/// The path of `path` relative to `prefix`, per `strip_prefix_spec`; a
/// path that does not lie under the prefix is an error.
pub fn get_relative_path(path: &str, prefix: &str) -> (r: Result<String, Error>)
    ensures
        match r {
            Ok(p) => strip_prefix_spec(path@, prefix@) == Some(p@),
            Err(e) => strip_prefix_spec(path@, prefix@) is None && (match e {
                Error::StripPrefixError(t) => t@ == path@,
                _ => false,
            }),
        },
{
    let n: usize = path.unicode_len();
    let pn: usize = prefix.unicode_len();
    if str_eq(path, prefix) {
        let out: String = String::new();
        proof {
            assert(out@ =~= Seq::<char>::empty());
        }
        return Ok(out);
    }
    if n > pn {
        let head: &str = path.substring_char(0, pn);
        proof {
            assert(head@ =~= path@.take(prefix@.len() as int));
        }
        if str_eq(head, prefix) && path.get_char(pn) == '/' {
            let rest: &str = path.substring_char(pn + 1, n);
            proof {
                assert(rest@ =~= path@.skip(prefix@.len() as int + 1));
            }
            return Ok(rest.to_owned());
        }
    }
    Err(Error::StripPrefixError(path.to_owned()))
}

} // verus!

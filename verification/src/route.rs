//! From a request path to the file of the module that answers it.

use vstd::prelude::*;
use crate::confine::{is_within, within};

verus! {

/// The file of the route module for `request_path`: the directory name
/// `route`, the path as it came, and the extension `.lua`. The path is not
/// normalised in any way.
pub open spec fn route_file(request_path: Seq<char>) -> Seq<char> {
    "route"@ + request_path + ".lua"@
}

/// The resolved file lies in the directory of route modules.
pub open spec fn confined(file: Seq<char>) -> bool {
    within(file, "route"@)
}

/// The request path of the site's root.
pub open spec fn root_path() -> Seq<char> {
    seq!['/']
}

/// Resolves a request path to the file of its route module.
pub fn resolve(request_path: &str) -> (file: String)
    ensures
        file@ == route_file(request_path@),
{
    let mut file = String::from_str("route");
    file.append(request_path);
    file.append(".lua");
    file
}

/// Tells whether `request_path` is the site's root.
pub fn is_root(request_path: &str) -> (root: bool)
    ensures
        root == (request_path@ == root_path()),
{
    let root = request_path.unicode_len() == 1 && request_path.get_char(0) == '/';
    proof {
        if root {
            assert(request_path@ =~= root_path());
        }
    }
    root
}

/// Tells whether the resolved `file` lies in the directory of route modules.
pub fn is_confined(file: &str) -> (inside: bool)
    ensures
        inside == confined(file@),
{
    is_within(file, "route")
}

/// Resolution keeps request paths apart: two paths with one module file are
/// one path.
pub proof fn lemma_resolve_injective(a: Seq<char>, b: Seq<char>)
    requires
        route_file(a) == route_file(b),
    ensures
        a == b,
{
    let head = "route"@;
    let tail = ".lua"@;
    assert(route_file(a).len() == head.len() + a.len() + tail.len());
    assert(route_file(b).len() == head.len() + b.len() + tail.len());
    assert forall|i: int| 0 <= i < a.len() implies a[i] == b[i] by {
        assert(route_file(a)[head.len() + i] == a[i]);
        assert(route_file(b)[head.len() + i] == b[i]);
    }
    assert(a =~= b);
}

/// A resolved file is confined exactly if the request path starts with a slash
/// and what follows, with the extension, never climbs out of the directory.
pub proof fn lemma_confined_request(request_path: Seq<char>)
    ensures
        confined(route_file(request_path)) <==> request_path.len() > 0 && request_path[0] == '/'
            && crate::confine::stays_inside(request_path.skip(1) + ".lua"@, 0),
{
    reveal_strlit("route");
    reveal_strlit(".lua");
    let file = route_file(request_path);
    let lead = "route"@ + seq!['/'];
    if request_path.len() > 0 && request_path[0] == '/' {
        assert(file.subrange(0, 6) =~= lead);
        assert(file.skip(6) =~= request_path.skip(1) + ".lua"@);
    } else {
        if crate::text::starts_with(file, lead) {
            assert(file.subrange(0, 6)[5] == lead[5]);
            assert(file[5] == '/');
            if request_path.len() > 0 {
                assert(file[5] == request_path[0]);
            } else {
                assert(file[5] == '.');
            }
        }
    }
}

} // verus!

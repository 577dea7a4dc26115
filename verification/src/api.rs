//! Which tenant a request is for.
//!
//! The path of a request names the tenant in its third part, counted by
//! the slashes: `/api/acme` is for `acme`. A path without a tenant is for
//! the host's own root schema.

use vstd::prelude::*;
use crate::text::chars_of;
use crate::text::copy_str;
use crate::text::string_of;

verus! {

/// The position of the first slash at or after `from`, or the length of
/// the path where there is none.
pub open spec fn first_slash(path: Seq<char>, from: int) -> int
    decreases path.len() - from,
{
    if from < 0 || from >= path.len() {
        path.len() as int
    } else if path[from] == '/' {
        from
    } else {
        first_slash(path, from + 1)
    }
}

/// The part number `n` of what follows position `from`, where slashes part
/// the path; empty where there are fewer parts.
pub open spec fn part(path: Seq<char>, from: int, n: nat) -> Seq<char>
    decreases n,
{
    let cut = first_slash(path, from);
    if from < 0 || from > path.len() {
        Seq::empty()
    } else if n == 0 {
        path.subrange(from, cut)
    } else if cut >= path.len() {
        Seq::empty()
    } else {
        part(path, cut + 1, (n - 1) as nat)
    }
}

/// The tenant that a request's path names: its third part.
pub open spec fn org_of(path: Seq<char>) -> Seq<char> {
    part(path, 0, 2)
}

/// The tenant that the path of a request names; empty where it names
/// none.
pub fn org_of_path(path: &str) -> (r: String)
    ensures
        r@ == org_of(path@),
{
    let chars = chars_of(path);
    let mut from: usize = 0;
    let mut n: usize = 2;
    loop
        invariant
            from <= chars@.len(),
            n <= 2,
            chars@ == path@,
            part(chars@, from as int, n as nat) == org_of(path@),
        decreases n,
    {
        let mut cut: usize = from;
        while cut < chars.len() && chars[cut] != '/'
            invariant
                from <= cut <= chars@.len(),
                first_slash(chars@, from as int) == first_slash(chars@, cut as int),
            decreases chars@.len() - cut,
        {
            cut += 1;
        }
        if n == 0 {
            return string_of(&chars, from, cut);
        }
        if cut >= chars.len() {
            return String::new();
        }
        from = cut + 1;
        n -= 1;
    }
}

/// What answers a request.
#[derive(Debug, Clone, Copy, PartialEq, Eq, Structural)]
pub enum Route {
    /// The schema of the tenant that the request names.
    Tenant,
    /// The host's root schema.
    Root,
    /// Nothing: the request names a tenant that the registry does not hold.
    NotFound,
}

/// What answers a request for `org`: the tenant's schema where the registry
/// holds the tenant; else the root schema, where the host has one and the
/// request names no tenant; else nothing.
pub fn route(org: &str, found: bool, has_root: bool) -> (r: Route)
    ensures
        r == if found {
            Route::Tenant
        } else if has_root && org@.len() == 0 {
            Route::Root
        } else {
            Route::NotFound
        },
{
    if found {
        Route::Tenant
    } else if has_root && org.unicode_len() == 0 {
        Route::Root
    } else {
        Route::NotFound
    }
}

/// The endpoint that the playground of `org` puts its queries to.
pub fn playground_endpoint(org: &str) -> (r: String)
    ensures
        r@ == "/api/"@ + org@,
{
    let mut r = copy_str("/api/");
    r.append(org);
    r
}

} // verus!

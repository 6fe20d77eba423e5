//! Cross-origin resource sharing: the headers with which the HTTP server
//! answers a request from a browser origin.
use crate::model::strings_view;
use crate::proxy::contains_name;
use crate::text::owned;
use vstd::prelude::*;

verus! {

/// The methods that cross-origin requests may use.
pub open spec fn allowed_methods() -> Seq<char> {
    "GET, POST, DELETE, OPTIONS"@
}

/// The request headers that cross-origin requests may send.
pub open spec fn allowed_headers() -> Seq<char> {
    "Content-Type, Authorization, Mcp-Session-Id"@
}

/// The origin that a response allows: every origin (`*`) where the allowed
/// origins list `*`, otherwise the request's origin where it is listed.
pub open spec fn allowed_origin(origins: Seq<Seq<char>>, origin: Option<Seq<char>>) -> Option<
    Seq<char>,
> {
    if origins.contains("*"@) {
        Some("*"@)
    } else {
        match origin {
            Some(o) => if origins.contains(o) {
                Some(o)
            } else {
                None
            },
            None => None,
        }
    }
}

/// The CORS headers of a response to a request from `origin`: none where
/// CORS is disabled or the origin is not allowed; otherwise the allowed
/// origin, methods and request headers.
pub open spec fn cors_response_headers(
    enabled: bool,
    origins: Seq<Seq<char>>,
    origin: Option<Seq<char>>,
) -> Seq<(Seq<char>, Seq<char>)> {
    if !enabled {
        Seq::empty()
    } else {
        match allowed_origin(origins, origin) {
            Some(a) => seq![
                ("access-control-allow-origin"@, a),
                ("access-control-allow-methods"@, allowed_methods()),
                ("access-control-allow-headers"@, allowed_headers()),
            ],
            None => Seq::empty(),
        }
    }
}

/// The CORS headers of a response to a request from `origin`, given whether
/// CORS is enabled and the allowed origins.
pub fn cors_headers(enabled: bool, origins: &Vec<String>, origin: &Option<String>) -> (r: Vec<
    (String, String),
>)
    ensures
        r@.map_values(|p: (String, String)| (p.0@, p.1@)) == cors_response_headers(
            enabled,
            strings_view(origins@),
            match origin {
                Some(o) => Some(o@),
                None => None,
            },
        ),
{
    let mut r: Vec<(String, String)> = Vec::new();
    if !enabled {
        assert(r@.map_values(|p: (String, String)| (p.0@, p.1@)) =~= Seq::empty());
        return r;
    }
    let allowed: Option<String> = if contains_name(origins, "*") {
        Some(owned("*"))
    } else {
        match origin {
            Some(o) => if contains_name(origins, o.as_str()) {
                Some(o.clone())
            } else {
                None
            },
            None => None,
        }
    };
    match allowed {
        Some(a) => {
            r.push((owned("access-control-allow-origin"), a));
            r.push((owned("access-control-allow-methods"), owned("GET, POST, DELETE, OPTIONS")));
            r.push(
                (owned("access-control-allow-headers"), owned("Content-Type, Authorization, Mcp-Session-Id")),
            );
        },
        None => {},
    }
    assert(r@.map_values(|p: (String, String)| (p.0@, p.1@)) =~= cors_response_headers(
        enabled,
        strings_view(origins@),
        match origin {
            Some(o) => Some(o@),
            None => None,
        },
    ));
    r
}

} // verus!

//! Prefixed names: the proxy exposes an item `name` of server `server` as
//! `server___name`, and finds the server of a prefixed name again.
use crate::text::{
    concat3, contains_seq, first_index_of, is_first_occurrence, lemma_first_index_of, occurs_at,
    owned, split_once,
};
use vstd::prelude::*;

verus! {

/// The separator between a server name and an item name.
pub open spec fn separator() -> Seq<char> {
    "___"@
}

/// The exposed name of item `name` of server `server`.
pub open spec fn prefixed_name(server: Seq<char>, name: Seq<char>) -> Seq<char> {
    server + separator() + name
}

/// A prefixed name split at the first separator into server and item name.
pub open spec fn split_prefixed(name: Seq<char>) -> Option<(Seq<char>, Seq<char>)> {
    match first_index_of(name, separator()) {
        Some(i) => Some((name.take(i), name.skip(i + separator().len()))),
        None => None,
    }
}

/// The server part of a prefixed name, or `unknown` for a name without separator.
pub open spec fn server_of(name: Seq<char>) -> Seq<char> {
    match split_prefixed(name) {
        Some((server, _)) => server,
        None => "unknown"@,
    }
}

/// A server name that the separator cannot run into: it holds no separator
/// and does not end with an underscore.
pub open spec fn clean_server_name(server: Seq<char>) -> bool {
    &&& !contains_seq(server, separator())
    &&& !(server.len() > 0 && server.last() == '_')
}

/// The exposed name of item `name` of server `server`.
pub fn prefix_name(server: &str, name: &str) -> (r: String)
    ensures
        r@ == prefixed_name(server@, name@),
{
    concat3(server, "___", name)
}

/// Splits a prefixed name at its first separator.
pub fn split_prefixed_name(name: &str) -> (r: Option<(String, String)>)
    ensures
        match split_prefixed(name@) {
            Some((s, t)) => r matches Some((a, b)) && a@ == s && b@ == t,
            None => r is None,
        },
{
    split_once(name, "___")
}

/// The server part of a prefixed name, or `unknown`.
pub fn extract_server_name(tool_name: &str) -> (r: String)
    ensures
        r@ == server_of(tool_name@),
{
    match split_prefixed_name(tool_name) {
        Some((server, _)) => server,
        None => owned("unknown"),
    }
}

/// Splitting a prefixed name gives back the server and the item name, for
/// every clean server name and every item name.
pub proof fn lemma_split_prefixed_name(server: Seq<char>, name: Seq<char>)
    requires
        clean_server_name(server),
    ensures
        split_prefixed(prefixed_name(server, name)) == Some((server, name)),
        server_of(prefixed_name(server, name)) == server,
{
    reveal_strlit("___");
    let joined = prefixed_name(server, name);
    let sep = separator();
    let n = server.len() as int;
    assert(joined.subrange(n, n + 3) =~= sep);
    assert forall|j: int| 0 <= j < n implies !occurs_at(joined, sep, j) by {
        if occurs_at(joined, sep, j) {
            if j + 3 <= n {
                assert(server.subrange(j, j + 3) =~= joined.subrange(j, j + 3));
                assert(occurs_at(server, sep, j));
            } else {
                assert(joined.subrange(j, j + 3)[n - 1 - j] == joined[n - 1]);
                assert(joined[n - 1] == server[n - 1]);
            }
        }
    }
    assert(is_first_occurrence(joined, sep, n));
    lemma_first_index_of(joined, sep, n);
    assert(joined.take(n) =~= server);
    assert(joined.skip(n + 3) =~= name);
}

} // verus!

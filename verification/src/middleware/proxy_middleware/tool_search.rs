//! Tool search middleware that provides selective tool exposure and fuzzy search functionality.
use crate::config::{MiddlewareSettings, MiddlewareSettingsView};
use crate::error::{is_config_error, McpError, McpErrorView, ProxyError, INVALID_PARAMS};
use crate::json::{json_string_field, string_field};
use crate::fuzzy::{skim_score, DefaultSkimMatcher};
use crate::middleware::proxy::{proxy_kind, ProxyKind, ProxyMiddlewareInstance};
use crate::model::{clone_strings, clone_tools, opt_view, strings_view, tools_view, Tool, ToolView};
use crate::naming::{extract_server_name, server_of};
use crate::sorting::{insert_stable, lemma_insert_stable_at, sort_stable, sorted_by, strict_weak_order};
use crate::text::{
    chars_lt, chars_of, concat2, concat3, decimal, decimal_text, lemma_seq_lt_between,
    lemma_seq_lt_irreflexive, lemma_seq_lt_total, lemma_seq_lt_transitive, owned, seq_lt, text_eq,
    contains_seq, occurs_at,
};
use vstd::prelude::*;
use vstd::string::*;

verus! {

/// Tool search is enabled unless a configuration says otherwise.
pub fn default_enabled() -> (r: bool)
    ensures
        r == true,
{
    true
}

/// At most 50 tools are exposed initially and returned by a search, unless configured.
pub fn default_max_tools_limit() -> (r: usize)
    ensures
        r == 50,
{
    50
}

/// The default minimum similarity is 0.3 on the 0–1 scale. Scores are compared
/// with it times 100 in `f32` arithmetic, 30.000002, so the smallest score
/// that reaches it is 31.
pub fn default_search_threshold() -> (r: u32)
    ensures
        r == 31,
{
    31
}

/// Tools are selected by server priority unless configured.
pub fn default_tool_selection_order() -> (r: Vec<String>)
    ensures
        strings_view(r@) == seq!["server_priority"@],
{
    let mut r: Vec<String> = Vec::new();
    r.push(owned("server_priority"));
    proof {
        assert(strings_view(r@) =~= seq!["server_priority"@]);
    }
    r
}

/// Configuration for tool search middleware.
pub struct ToolSearchMiddlewareConfig {
    /// Whether tool search is enabled.
    pub enabled: bool,
    /// Maximum number of tools to expose initially and return in search results.
    pub max_tools_limit: usize,
    /// The smallest fuzzy score of a search result: the configured minimum
    /// similarity on the 0–1 scale times 100, as `f32` arithmetic computes it,
    /// rounded up.
    pub search_min_score: u32,
    /// Tool selection order for initial exposure.
    pub tool_selection_order: Vec<String>,
}

impl Default for ToolSearchMiddlewareConfig {
    fn default() -> (r: Self)
        ensures
            r.enabled,
            r.max_tools_limit == 50,
            r.search_min_score == 31,
            strings_view(r.tool_selection_order@) == seq!["server_priority"@],
    {
        ToolSearchMiddlewareConfig {
            enabled: default_enabled(),
            max_tools_limit: default_max_tools_limit(),
            search_min_score: default_search_threshold(),
            tool_selection_order: default_tool_selection_order(),
        }
    }
}

impl Clone for ToolSearchMiddlewareConfig {
    fn clone(&self) -> (r: Self)
        ensures
            r.enabled == self.enabled,
            r.max_tools_limit == self.max_tools_limit,
            r.search_min_score == self.search_min_score,
            strings_view(r.tool_selection_order@) == strings_view(self.tool_selection_order@),
    {
        ToolSearchMiddlewareConfig {
            enabled: self.enabled,
            max_tools_limit: self.max_tools_limit,
            search_min_score: self.search_min_score,
            tool_selection_order: clone_strings(&self.tool_selection_order),
        }
    }
}

/// Represents a tool indexed for search with metadata.
pub struct IndexedTool {
    /// The indexed tool.
    pub tool: Tool,
    /// Searchable text combining name and description.
    pub searchable_text: String,
    /// Server name that provides this tool.
    pub server_name: String,
    /// Priority for initial tool selection; every tool has the same one.
    pub selection_priority: u32,
}

/// The mathematical value of an [`IndexedTool`].
pub struct IndexedToolView {
    pub tool: ToolView,
    pub searchable_text: Seq<char>,
    pub server_name: Seq<char>,
    pub selection_priority: u32,
}

impl View for IndexedTool {
    type V = IndexedToolView;

    open spec fn view(&self) -> IndexedToolView {
        IndexedToolView {
            tool: self.tool@,
            searchable_text: self.searchable_text@,
            server_name: self.server_name@,
            selection_priority: self.selection_priority,
        }
    }
}

/// The text a tool is searched by: its name, a space, and its description
/// (nothing when it has none).
pub open spec fn searchable_text_of(t: ToolView) -> Seq<char> {
    t.name + " "@ + match t.description {
        Some(d) => d,
        None => Seq::<char>::empty(),
    }
}

/// How a tool is indexed: with its searchable text and the server of its prefixed name.
pub open spec fn indexed_view_of(t: ToolView) -> IndexedToolView {
    IndexedToolView {
        tool: t,
        searchable_text: searchable_text_of(t),
        server_name: server_of(t.name),
        selection_priority: 1,
    }
}

impl IndexedTool {
    /// Indexes a tool provided by the given server.
    pub fn new(tool: Tool, server_name: String) -> (r: Self)
        ensures
            r@ == (IndexedToolView {
                tool: tool@,
                searchable_text: searchable_text_of(tool@),
                server_name: server_name@,
                selection_priority: 1,
            }),
    {
        let searchable_text = match &tool.description {
            Some(d) => concat3(tool.name.as_str(), " ", d.as_str()),
            None => concat3(tool.name.as_str(), " ", ""),
        };
        proof {
            reveal_strlit("");
        }
        IndexedTool { tool, searchable_text, server_name, selection_priority: 1 }
    }
}

/// Tools ordered by name.
pub open spec fn name_order() -> spec_fn(ToolView, ToolView) -> bool {
    |a: ToolView, b: ToolView| seq_lt(a.name, b.name)
}

/// Tools grouped by server, and ordered by name within a server.
pub open spec fn server_order() -> spec_fn(ToolView, ToolView) -> bool {
    |a: ToolView, b: ToolView|
        seq_lt(server_of(a.name), server_of(b.name)) || (server_of(a.name) == server_of(b.name)
            && seq_lt(a.name, b.name))
}

/// The order that a selection criterion names: `alphabetical` sorts by name,
/// `server_priority` by server and then name; any other criterion leaves
/// the order as it is.
pub open spec fn apply_criterion(s: Seq<ToolView>, criterion: Seq<char>) -> Seq<ToolView> {
    if criterion == "alphabetical"@ {
        sort_stable(s, name_order())
    } else if criterion == "server_priority"@ {
        sort_stable(s, server_order())
    } else {
        s
    }
}

/// The tools after applying the criteria one after another.
pub open spec fn apply_criteria(s: Seq<ToolView>, criteria: Seq<Seq<char>>) -> Seq<ToolView>
    decreases criteria.len(),
{
    if criteria.len() == 0 {
        s
    } else {
        apply_criterion(apply_criteria(s, criteria.drop_last()), criteria.last())
    }
}

/// The first `n` elements of `s`, or all of them if there are fewer.
pub open spec fn take_at_most<T>(s: Seq<T>, n: nat) -> Seq<T> {
    if n < s.len() {
        s.take(n as int)
    } else {
        s
    }
}

/// Ordering tools by name is a strict weak order.
pub proof fn lemma_name_order_strict_weak()
    ensures
        strict_weak_order(name_order()),
{
    let lt = name_order();
    assert forall|a: ToolView| !#[trigger] lt(a, a) by {
        lemma_seq_lt_irreflexive(a.name);
    }
    assert forall|a: ToolView, b: ToolView, c: ToolView|
        #[trigger] lt(a, b) && #[trigger] lt(b, c) implies lt(a, c) by {
        lemma_seq_lt_transitive(a.name, b.name, c.name);
    }
    assert forall|a: ToolView, b: ToolView, c: ToolView| #[trigger] lt(a, c) implies #[trigger] lt(
        a,
        b,
    ) || #[trigger] lt(b, c) by {
        lemma_seq_lt_between(a.name, b.name, c.name);
    }
}

/// Ordering tools by server and then by name is a strict weak order.
pub proof fn lemma_server_order_strict_weak()
    ensures
        strict_weak_order(server_order()),
{
    let lt = server_order();
    assert forall|a: ToolView| !#[trigger] lt(a, a) by {
        lemma_seq_lt_irreflexive(a.name);
        lemma_seq_lt_irreflexive(server_of(a.name));
    }
    assert forall|a: ToolView, b: ToolView, c: ToolView|
        #[trigger] lt(a, b) && #[trigger] lt(b, c) implies lt(a, c) by {
        let (sa, sb, sc) = (server_of(a.name), server_of(b.name), server_of(c.name));
        if seq_lt(sa, sb) && seq_lt(sb, sc) {
            lemma_seq_lt_transitive(sa, sb, sc);
        } else if sa == sb && sb == sc {
            lemma_seq_lt_transitive(a.name, b.name, c.name);
        }
    }
    assert forall|a: ToolView, b: ToolView, c: ToolView| #[trigger] lt(a, c) implies #[trigger] lt(
        a,
        b,
    ) || #[trigger] lt(b, c) by {
        let (sa, sb, sc) = (server_of(a.name), server_of(b.name), server_of(c.name));
        if seq_lt(sa, sc) {
            lemma_seq_lt_between(sa, sb, sc);
        } else {
            lemma_seq_lt_total(sa, sb);
            lemma_seq_lt_between(a.name, b.name, c.name);
        }
    }
}

/// Applying selection criteria keeps the tools, in some order.
pub proof fn lemma_apply_criteria_perm(s: Seq<ToolView>, criteria: Seq<Seq<char>>)
    ensures
        apply_criteria(s, criteria).to_multiset() == s.to_multiset(),
    decreases criteria.len(),
{
    if criteria.len() > 0 {
        lemma_apply_criteria_perm(s, criteria.drop_last());
        let before = apply_criteria(s, criteria.drop_last());
        crate::sorting::lemma_sort_stable_perm(before, name_order());
        crate::sorting::lemma_sort_stable_perm(before, server_order());
    }
}

/// Criteria that name no known order leave the tools as they are.
proof fn lemma_unknown_criteria_keep_order(s: Seq<ToolView>, criteria: Seq<Seq<char>>)
    requires
        forall|k: int|
            0 <= k < criteria.len() ==> #[trigger] criteria[k] != "alphabetical"@ && criteria[k]
                != "server_priority"@,
    ensures
        apply_criteria(s, criteria) == s,
    decreases criteria.len(),
{
    if criteria.len() > 0 {
        assert forall|k: int| 0 <= k < criteria.drop_last().len() implies #[trigger] criteria.drop_last()[k]
            != "alphabetical"@ && criteria.drop_last()[k] != "server_priority"@ by {
            assert(criteria.drop_last()[k] == criteria[k]);
        }
        lemma_unknown_criteria_keep_order(s, criteria.drop_last());
        assert(criteria.last() == criteria[criteria.len() - 1]);
    }
}

/// Where there are more tools than the limit, the selected tools and the
/// tools left out are together exactly the given tools. With `alphabetical`
/// last, no tool left out has a name before that of a selected tool; with
/// `server_priority` last, no tool left out comes before a selected tool in
/// server-then-name order; with criteria that name no known order, the
/// first `limit` tools, as given, are selected.
pub proof fn lemma_initial_selection_contents(
    tools: Seq<ToolView>,
    limit: nat,
    criteria: Seq<Seq<char>>,
)
    requires
        tools.len() > limit,
    ensures
        tools.to_multiset() == initial_selection(tools, true, limit, criteria).to_multiset().add(
            apply_criteria(tools, criteria).skip(limit as int).to_multiset(),
        ),
        criteria.len() > 0 && criteria.last() == "alphabetical"@ ==> forall|i: int, j: int|
            0 <= i < limit && 0 <= j < tools.len() - limit ==> !seq_lt(
                #[trigger] apply_criteria(tools, criteria).skip(limit as int)[j].name,
                #[trigger] initial_selection(tools, true, limit, criteria)[i].name,
            ),
        criteria.len() > 0 && criteria.last() == "server_priority"@ ==> forall|i: int, j: int|
            0 <= i < limit && 0 <= j < tools.len() - limit ==> !server_order()(
                #[trigger] apply_criteria(tools, criteria).skip(limit as int)[j],
                #[trigger] initial_selection(tools, true, limit, criteria)[i],
            ),
        (forall|k: int|
            0 <= k < criteria.len() ==> #[trigger] criteria[k] != "alphabetical"@ && criteria[k]
                != "server_priority"@) ==> initial_selection(tools, true, limit, criteria)
            == tools.take(limit as int),
{
    let all = apply_criteria(tools, criteria);
    let chosen = initial_selection(tools, true, limit, criteria);
    let left = all.skip(limit as int);
    lemma_apply_criteria_len(tools, criteria);
    lemma_apply_criteria_perm(tools, criteria);
    assert(all =~= chosen + left);
    vstd::seq_lib::lemma_multiset_commutative(chosen, left);
    if criteria.len() > 0 {
        let before = apply_criteria(tools, criteria.drop_last());
        reveal_strlit("alphabetical");
        reveal_strlit("server_priority");
        if criteria.last() == "alphabetical"@ {
            lemma_name_order_strict_weak();
            crate::sorting::lemma_sort_stable_sorted(before, name_order());
            assert forall|i: int, j: int| 0 <= i < limit && 0 <= j < tools.len() - limit implies !seq_lt(
                #[trigger] left[j].name,
                #[trigger] chosen[i].name,
            ) by {
                assert(left[j] == all[limit + j] && chosen[i] == all[i]);
                assert(!name_order()(all[limit + j], all[i]));
            }
        }
        if criteria.last() == "server_priority"@ {
            assert("server_priority"@.len() != "alphabetical"@.len());
            assert(all == sort_stable(before, server_order()));
            lemma_server_order_strict_weak();
            crate::sorting::lemma_sort_stable_sorted(before, server_order());
            assert forall|i: int, j: int| 0 <= i < limit && 0 <= j < tools.len() - limit implies !server_order()(
                #[trigger] left[j],
                #[trigger] chosen[i],
            ) by {
                assert(left[j] == all[limit + j] && chosen[i] == all[i]);
            }
        }
    }
    if forall|k: int|
        0 <= k < criteria.len() ==> #[trigger] criteria[k] != "alphabetical"@ && criteria[k]
            != "server_priority"@ {
        lemma_unknown_criteria_keep_order(tools, criteria);
    }
}

/// Higher scores first is a strict weak order.
pub proof fn lemma_score_order_strict_weak()
    ensures
        strict_weak_order(score_order()),
{
}

/// Where there are more tools than the limit, the initial selection has
/// exactly `limit` tools, and with `alphabetical` as the last criterion they
/// are in name order, with `server_priority` as the last criterion they are
/// grouped by server and in name order within a server.
pub proof fn lemma_initial_selection_ordered(
    tools: Seq<ToolView>,
    limit: nat,
    criteria: Seq<Seq<char>>,
)
    requires
        tools.len() > limit,
    ensures
        initial_selection(tools, true, limit, criteria).len() == limit,
        criteria.len() > 0 && criteria.last() == "alphabetical"@ ==> sorted_by(
            initial_selection(tools, true, limit, criteria),
            name_order(),
        ),
        criteria.len() > 0 && criteria.last() == "server_priority"@ ==> sorted_by(
            initial_selection(tools, true, limit, criteria),
            server_order(),
        ),
{
    lemma_apply_criteria_len(tools, criteria);
    if criteria.len() > 0 {
        let before = apply_criteria(tools, criteria.drop_last());
        let all = apply_criteria(tools, criteria);
        let chosen = initial_selection(tools, true, limit, criteria);
        reveal_strlit("alphabetical");
        reveal_strlit("server_priority");
        if criteria.last() == "alphabetical"@ {
            lemma_name_order_strict_weak();
            crate::sorting::lemma_sort_stable_sorted(before, name_order());
            assert forall|i: int, j: int| 0 <= i < j < chosen.len() implies !name_order()(
                #[trigger] chosen[j],
                #[trigger] chosen[i],
            ) by {
                assert(chosen[i] == all[i] && chosen[j] == all[j]);
            }
        }
        if criteria.last() == "server_priority"@ {
            assert("server_priority"@.len() != "alphabetical"@.len());
            assert(all == sort_stable(before, server_order()));
            lemma_server_order_strict_weak();
            crate::sorting::lemma_sort_stable_sorted(before, server_order());
            assert forall|i: int, j: int| 0 <= i < j < chosen.len() implies !server_order()(
                #[trigger] chosen[j],
                #[trigger] chosen[i],
            ) by {
                assert(chosen[i] == all[i] && chosen[j] == all[j]);
            }
        }
    }
}

/// Applying selection criteria keeps the number of tools.
pub proof fn lemma_apply_criteria_len(s: Seq<ToolView>, criteria: Seq<Seq<char>>)
    ensures
        apply_criteria(s, criteria).len() == s.len(),
    decreases criteria.len(),
{
    if criteria.len() > 0 {
        lemma_apply_criteria_len(s, criteria.drop_last());
        let before = apply_criteria(s, criteria.drop_last());
        crate::sorting::lemma_sort_stable_perm(before, name_order());
        crate::sorting::lemma_sort_stable_perm(before, server_order());
    }
}

/// The tools exposed initially: all of them when the middleware is disabled
/// or they do not exceed the limit; otherwise the first `limit` after
/// applying the selection criteria.
pub open spec fn initial_selection(
    tools: Seq<ToolView>,
    enabled: bool,
    limit: nat,
    criteria: Seq<Seq<char>>,
) -> Seq<ToolView> {
    if !enabled || tools.len() <= limit {
        tools
    } else {
        apply_criteria(tools, criteria).take(limit as int)
    }
}

/// The indexed tools whose fuzzy score for `query` reaches `threshold`, in
/// index order, with their scores.
pub open spec fn scored_candidates(
    index: Seq<IndexedToolView>,
    query: Seq<char>,
    threshold: int,
) -> Seq<(i64, ToolView)>
    decreases index.len(),
{
    if index.len() == 0 {
        seq![]
    } else {
        let before = scored_candidates(index.drop_last(), query, threshold);
        let e = index.last();
        match skim_score(e.searchable_text, query) {
            Some(score) => if score >= threshold {
                before.push((score, e.tool))
            } else {
                before
            },
            None => before,
        }
    }
}

/// Higher scores first.
pub open spec fn score_order() -> spec_fn((i64, ToolView), (i64, ToolView)) -> bool {
    |a: (i64, ToolView), b: (i64, ToolView)| a.0 > b.0
}

/// The candidates by descending score (equal scores in index order), at most
/// `limit` of them.
pub open spec fn ranked_candidates(
    index: Seq<IndexedToolView>,
    query: Seq<char>,
    threshold: int,
    limit: nat,
) -> Seq<(i64, ToolView)> {
    take_at_most(sort_stable(scored_candidates(index, query, threshold), score_order()), limit)
}

/// The result of a search: the tools of the ranked candidates.
pub open spec fn search_results(
    index: Seq<IndexedToolView>,
    query: Seq<char>,
    threshold: int,
    limit: nat,
) -> Seq<ToolView> {
    ranked_candidates(index, query, threshold, limit).map_values(|p: (i64, ToolView)| p.1)
}

/// Every candidate reaches the threshold, and is an indexed tool with the
/// score that the fuzzy matcher gives its text for the query.
proof fn lemma_candidates_from_index(index: Seq<IndexedToolView>, query: Seq<char>, threshold: int)
    ensures
        forall|i: int|
            0 <= i < scored_candidates(index, query, threshold).len() ==> {
                let c = #[trigger] scored_candidates(index, query, threshold)[i];
                &&& c.0 >= threshold
                &&& exists|k: int|
                    0 <= k < index.len() && index[k].tool == c.1 && skim_score(
                        #[trigger] index[k].searchable_text,
                        query,
                    ) == Some(c.0)
            },
    decreases index.len(),
{
    if index.len() > 0 {
        let front = index.drop_last();
        lemma_candidates_from_index(front, query, threshold);
        let before = scored_candidates(front, query, threshold);
        let all = scored_candidates(index, query, threshold);
        assert forall|i: int| 0 <= i < all.len() implies {
            let c = #[trigger] all[i];
            &&& c.0 >= threshold
            &&& exists|k: int|
                0 <= k < index.len() && index[k].tool == c.1 && skim_score(
                    #[trigger] index[k].searchable_text,
                    query,
                ) == Some(c.0)
        } by {
            if i < before.len() {
                assert(all[i] == before[i]);
                let c = before[i];
                let k = choose|k: int|
                    0 <= k < front.len() && front[k].tool == c.1 && skim_score(
                        #[trigger] front[k].searchable_text,
                        query,
                    ) == Some(c.0);
                assert(index[k] == front[k]);
            } else {
                let k = index.len() - 1;
                assert(index[k] == index.last());
                assert(skim_score(index[k].searchable_text, query) == Some(all[i].0));
            }
        }
    }
}

/// A search returns at most `limit` tools, best score first; each is an
/// indexed tool whose fuzzy score for the query reaches the threshold.
pub proof fn lemma_search_results_ranked(
    index: Seq<IndexedToolView>,
    query: Seq<char>,
    threshold: int,
    limit: nat,
)
    ensures
        search_results(index, query, threshold, limit).len() == ranked_candidates(
            index,
            query,
            threshold,
            limit,
        ).len(),
        ranked_candidates(index, query, threshold, limit).len() <= limit,
        forall|i: int, j: int|
            0 <= i < j < ranked_candidates(index, query, threshold, limit).len() ==> (
            #[trigger] ranked_candidates(index, query, threshold, limit)[i]).0 >= (
            #[trigger] ranked_candidates(index, query, threshold, limit)[j]).0,
        forall|i: int|
            0 <= i < ranked_candidates(index, query, threshold, limit).len() ==> {
                let c = #[trigger] ranked_candidates(index, query, threshold, limit)[i];
                &&& c.0 >= threshold
                &&& search_results(index, query, threshold, limit)[i] == c.1
                &&& exists|k: int|
                    0 <= k < index.len() && index[k].tool == c.1 && skim_score(
                        #[trigger] index[k].searchable_text,
                        query,
                    ) == Some(c.0)
            },
{
    broadcast use vstd::seq_lib::group_to_multiset_ensures;

    let cands = scored_candidates(index, query, threshold);
    let sorted = sort_stable(cands, score_order());
    let ranked = ranked_candidates(index, query, threshold, limit);
    crate::sorting::lemma_sort_stable_perm(cands, score_order());
    crate::sorting::lemma_sort_stable_sorted(cands, score_order());
    lemma_candidates_from_index(index, query, threshold);
    assert forall|i: int| 0 <= i < ranked.len() implies #[trigger] ranked[i] == sorted[i] by {}
    assert forall|i: int, j: int| 0 <= i < j < ranked.len() implies (#[trigger] ranked[i]).0 >= (
    #[trigger] ranked[j]).0 by {
        assert(!score_order()(sorted[j], sorted[i]));
    }
    assert forall|i: int| 0 <= i < ranked.len() implies {
        let c = #[trigger] ranked[i];
        &&& c.0 >= threshold
        &&& search_results(index, query, threshold, limit)[i] == c.1
        &&& exists|k: int|
            0 <= k < index.len() && index[k].tool == c.1 && skim_score(
                #[trigger] index[k].searchable_text,
                query,
            ) == Some(c.0)
    } by {
        let c = sorted[i];
        assert(sorted.contains(c));
        assert(sorted.to_multiset().count(c) > 0);
        assert(cands.contains(c));
        let m = choose|m: int| 0 <= m < cands.len() && cands[m] == c;
        assert(cands[m] == c);
    }
}

/// The name of the search tool.
pub open spec fn search_tool_name() -> Seq<char> {
    "search_available_tools"@
}

/// The parameter schema of the search tool, as JSON text.
pub open spec fn search_tool_schema() -> Seq<char> {
    "{\"properties\":{\"query\":{\"description\":\"Search query to find relevant tools by name or description\",\"type\":\"string\"}},\"required\":[\"query\"],\"type\":\"object\"}"@
}

/// The search tool, offered when `hidden` tools are not exposed.
pub open spec fn search_tool_view(hidden: nat) -> ToolView {
    ToolView {
        name: search_tool_name(),
        description: Some(
            "Search through "@ + decimal(hidden)
                + " additional available tools. Provide a search query to find relevant tools by name or description."@,
        ),
        input_schema: search_tool_schema(),
        annotations: None,
    }
}

/// The query of a call of the search tool: the string field `query` of its
/// JSON arguments.
pub open spec fn search_query(arguments: Option<Seq<char>>) -> Option<Seq<char>> {
    match arguments {
        Some(text) => json_string_field(text, "query"@),
        None => None,
    }
}

/// The error answered to a call of the search tool without a query.
pub open spec fn missing_query_error() -> McpErrorView {
    McpErrorView {
        code: INVALID_PARAMS,
        message: "Missing required parameter: query"@,
        data: None,
    }
}

/// A description, or nothing where there is none.
pub open spec fn description_text(d: Option<Seq<char>>) -> Seq<char> {
    match d {
        Some(t) => t,
        None => Seq::empty(),
    }
}

/// The numbered entries of the tools found, one paragraph each: number,
/// name in bold, and description.
pub open spec fn found_entries(found: Seq<ToolView>) -> Seq<char>
    decreases found.len(),
{
    if found.len() == 0 {
        Seq::empty()
    } else {
        found_entries(found.drop_last()) + decimal(found.len()) + ". **"@ + found.last().name
            + "**\n   "@ + description_text(found.last().description) + "\n\n"@
    }
}

/// The text answered to a search for `query` that found `found`.
pub open spec fn search_answer(query: Seq<char>, found: Seq<ToolView>) -> Seq<char> {
    if found.len() == 0 {
        "No tools found matching '"@ + query + "'."@
    } else {
        "Found "@ + decimal(found.len()) + " tool(s) matching '"@ + query + "':\n\n"@
            + found_entries(found) + "These tools are now available in your current session."@
    }
}

/// The heading of the `n`-th entry of a search answer: its number and the
/// tool's name in bold.
pub open spec fn entry_heading(n: nat, name: Seq<char>) -> Seq<char> {
    decimal(n) + ". **"@ + name + "**"@
}

/// The entries of the tools found split after the first `k` of them.
proof fn lemma_entries_split(found: Seq<ToolView>, k: int) -> (tail: Seq<char>)
    requires
        0 <= k <= found.len(),
    ensures
        found_entries(found) == found_entries(found.take(k)) + tail,
    decreases found.len() - k,
{
    if k == found.len() {
        assert(found.take(k) =~= found);
        assert(found_entries(found) =~= found_entries(found.take(k)) + Seq::<char>::empty());
        Seq::empty()
    } else {
        let rest = lemma_entries_split(found, k + 1);
        let x = lemma_entry_appended(found, k);
        assert(found_entries(found) =~= found_entries(found.take(k)) + (x + rest));
        x + rest
    }
}

/// The entry of the `k`-th tool found follows the entries of those before it,
/// and begins with its heading.
proof fn lemma_entry_appended(found: Seq<ToolView>, k: int) -> (x: Seq<char>)
    requires
        0 <= k < found.len(),
    ensures
        found_entries(found.take(k + 1)) == found_entries(found.take(k)) + x,
        x == entry_heading((k + 1) as nat, found[k].name) + "\n   "@ + description_text(
            found[k].description,
        ) + "\n\n"@,
{
    reveal_strlit("**");
    reveal_strlit("\n   ");
    reveal_strlit("**\n   ");
    let f = found.take(k + 1);
    assert(f.drop_last() =~= found.take(k));
    assert(f.last() == found[k]);
    assert(f.len() == k + 1);
    assert(found_entries(f) == found_entries(f.drop_last()) + decimal(f.len()) + ". **"@ + f.last().name
        + "**\n   "@ + description_text(f.last().description) + "\n\n"@);
    let x = entry_heading((k + 1) as nat, found[k].name) + "\n   "@ + description_text(
        found[k].description,
    ) + "\n\n"@;
    assert(found_entries(found.take(k + 1)) =~= found_entries(found.take(k)) + x);
    x
}

/// The answer to a search names every tool found, in the order found: the
/// `i`-th tool's name appears in bold under the number `i + 1`, and the
/// answer announces how many were found.
pub proof fn lemma_search_answer_names_found(query: Seq<char>, found: Seq<ToolView>)
    ensures
        forall|i: int|
            #![trigger found[i]]
            0 <= i < found.len() ==> contains_seq(
                search_answer(query, found),
                entry_heading((i + 1) as nat, found[i].name),
            ),
        found.len() > 0 ==> search_answer(query, found).take(6 + decimal(found.len()).len() as int) == "Found "@
            + decimal(found.len()),
{
    reveal_strlit("Found ");
    if found.len() > 0 {
        let head = "Found "@ + decimal(found.len()) + " tool(s) matching '"@ + query + "':\n\n"@;
        let foot = "These tools are now available in your current session."@;
        let ans = search_answer(query, found);
        assert(ans == head + found_entries(found) + foot);
        assert(ans.take(6 + decimal(found.len()).len() as int) =~= "Found "@ + decimal(found.len()));
        assert forall|i: int| #![trigger found[i]] 0 <= i < found.len() implies contains_seq(
            ans,
            entry_heading((i + 1) as nat, found[i].name),
        ) by {
            let tail = lemma_entries_split(found, i + 1);
            let x = lemma_entry_appended(found, i);
            let e = entry_heading((i + 1) as nat, found[i].name);
            let before = head + found_entries(found.take(i));
            let after = "\n   "@ + description_text(found[i].description) + "\n\n"@ + tail + foot;
            assert(ans =~= before + e + after);
            let pos = before.len() as int;
            assert(ans.subrange(pos, pos + e.len()) =~= e);
            assert(occurs_at(ans, e, pos));
        }
    }
}

/// What a call of the search tool with the given arguments does to the
/// middleware `before`, leaving `after`, and what it answers: without a
/// query the call is refused as invalid and nothing changes; otherwise the
/// tools that the query finds become the exposed tools and the answer lists
/// them. The index and the configuration stay.
pub open spec fn search_call_done(
    before: ToolSearchMiddleware,
    after: ToolSearchMiddleware,
    arguments: Option<Seq<char>>,
    r: Result<String, McpError>,
) -> bool {
    &&& after.settings() == before.settings()
    &&& after.index() == before.index()
    &&& match search_query(arguments) {
        None => r matches Err(e) && e@ == missing_query_error() && after.exposed()
            == before.exposed() && after.injected() == before.injected(),
        Some(q) => r matches Ok(t) && t@ == search_answer(
            q,
            search_results(before.index(), q, before.threshold(), before.limit()),
        ) && after.exposed() == search_results(
            before.index(),
            q,
            before.threshold(),
            before.limit(),
        ) && after.injected(),
    }
}

/// The values of a sequence of indexed tools.
pub open spec fn index_view(s: Seq<IndexedTool>) -> Seq<IndexedToolView> {
    s.map_values(|t: IndexedTool| t@)
}

/// Tool search middleware that provides selective tool exposure and search functionality.
pub struct ToolSearchMiddleware {
    config: ToolSearchMiddlewareConfig,
    matcher: DefaultSkimMatcher,
    tool_index: Vec<IndexedTool>,
    exposed_tools: Vec<Tool>,
    search_tool_injected: bool,
}

/// Scored tools, by value.
pub open spec fn scored_view(s: Seq<(i64, Tool)>) -> Seq<(i64, ToolView)> {
    s.map_values(|p: (i64, Tool)| (p.0, p.1@))
}

/// Whether `a` is ordered strictly before `b` in the given tool order, by keys
/// that hold the characters of the server and of the name.
fn key_before(
    by_server: bool,
    server_a: &Vec<char>,
    name_a: &Vec<char>,
    server_b: &Vec<char>,
    name_b: &Vec<char>,
) -> (r: bool)
    ensures
        r == if by_server {
            seq_lt(server_a@, server_b@) || (server_a@ == server_b@ && seq_lt(name_a@, name_b@))
        } else {
            seq_lt(name_a@, name_b@)
        },
{
    if by_server {
        if chars_lt(server_a, server_b) {
            true
        } else if chars_lt(server_b, server_a) {
            false
        } else {
            proof {
                crate::text::lemma_seq_lt_total(server_a@, server_b@);
            }
            chars_lt(name_a, name_b)
        }
    } else {
        chars_lt(name_a, name_b)
    }
}

/// The sort keys agree with the tools: the characters of each tool's name and
/// of its server.
spec fn keys_agree(names: Seq<Vec<char>>, servers: Seq<Vec<char>>, out: Seq<Tool>) -> bool {
    &&& names.len() == out.len()
    &&& servers.len() == out.len()
    &&& forall|j: int|
        0 <= j < out.len() ==> #[trigger] names[j]@ == out[j].name@ && servers[j]@ == server_of(
            out[j].name@,
        )
}

/// Inserting a tool with its keys at the same position keeps the keys in agreement.
proof fn lemma_keys_agree_insert(
    names: Seq<Vec<char>>,
    servers: Seq<Vec<char>>,
    out: Seq<Tool>,
    p: int,
    nm: Vec<char>,
    sv: Vec<char>,
    t: Tool,
)
    requires
        keys_agree(names, servers, out),
        0 <= p <= out.len(),
        nm@ == t.name@,
        sv@ == server_of(t.name@),
    ensures
        keys_agree(names.insert(p, nm), servers.insert(p, sv), out.insert(p, t)),
{
    let n2 = names.insert(p, nm);
    let s2 = servers.insert(p, sv);
    let o2 = out.insert(p, t);
    assert forall|j: int| 0 <= j < o2.len() implies #[trigger] n2[j]@ == o2[j].name@ && s2[j]@
        == server_of(o2[j].name@) by {
        if j < p {
            assert(n2[j] == names[j] && s2[j] == servers[j] && o2[j] == out[j]);
            assert(names[j]@ == out[j].name@);
        } else if j > p {
            assert(n2[j] == names[j - 1] && s2[j] == servers[j - 1] && o2[j] == out[j - 1]);
            assert(names[j - 1]@ == out[j - 1].name@);
        } else {
            assert(n2[j] == nm && s2[j] == sv && o2[j] == t);
        }
    }
}

/// The stable sort of tools by name (or by server and name).
fn sort_tools(tools: Vec<Tool>, by_server: bool) -> (r: Vec<Tool>)
    ensures
        tools_view(r@) == sort_stable(
            tools_view(tools@),
            if by_server {
                server_order()
            } else {
                name_order()
            },
        ),
{
    let ghost lt = if by_server {
        server_order()
    } else {
        name_order()
    };
    let mut out: Vec<Tool> = Vec::new();
    let mut names: Vec<Vec<char>> = Vec::new();
    let mut servers: Vec<Vec<char>> = Vec::new();
    let n = tools.len();
    for i in 0..n
        invariant
            n == tools@.len(),
            lt == if by_server {
                server_order()
            } else {
                name_order()
            },
            tools_view(out@) == sort_stable(tools_view(tools@.take(i as int)), lt),
            keys_agree(names@, servers@, out@),
    {
        let t = tools[i].clone();
        let nm = chars_of(t.name.as_str());
        let sv_text = extract_server_name(t.name.as_str());
        let sv = chars_of(sv_text.as_str());
        let mut p = out.len();
        while p > 0 && key_before(by_server, &sv, &nm, &servers[p - 1], &names[p - 1])
            invariant
                p <= out@.len(),
                keys_agree(names@, servers@, out@),
                nm@ == t.name@,
                sv@ == server_of(t.name@),
                lt == if by_server {
                    server_order()
                } else {
                    name_order()
                },
                forall|k: int| p <= k < out@.len() ==> lt(t@, #[trigger] tools_view(out@)[k]),
            decreases p,
        {
            assert(names@[p - 1]@ == out@[p - 1].name@);
            p = p - 1;
        }
        proof {
            if p > 0 {
                assert(names@[p - 1]@ == out@[p - 1].name@);
                assert(!lt(t@, tools_view(out@)[p - 1]));
            }
            lemma_insert_stable_at(tools_view(out@), t@, lt, p as int);
            assert(tools_view(tools@.take(i + 1)).drop_last() == tools_view(tools@.take(i as int)));
            assert(tools_view(tools@.take(i + 1)).last() == t@);
            lemma_keys_agree_insert(names@, servers@, out@, p as int, nm, sv, t);
        }
        let ghost before = out@;
        out.insert(p, t);
        names.insert(p, nm);
        servers.insert(p, sv);
        proof {
            assert(tools_view(out@) =~= tools_view(before).insert(p as int, t@));
        }
    }
    proof {
        assert(tools@.take(n as int) == tools@);
    }
    out
}

/// The stable sort of scored tools by descending score.
fn sort_by_score(items: Vec<(i64, Tool)>) -> (r: Vec<(i64, Tool)>)
    ensures
        scored_view(r@) == sort_stable(scored_view(items@), score_order()),
{
    let ghost lt = score_order();
    let mut out: Vec<(i64, Tool)> = Vec::new();
    let n = items.len();
    for i in 0..n
        invariant
            n == items@.len(),
            lt == score_order(),
            scored_view(out@) == sort_stable(scored_view(items@.take(i as int)), lt),
    {
        let score = items[i].0;
        let t = items[i].1.clone();
        let ghost x = (score, t@);
        let mut p = out.len();
        while p > 0 && score > out[p - 1].0
            invariant
                p <= out@.len(),
                lt == score_order(),
                x == (score, t@),
                forall|k: int| p <= k < out@.len() ==> lt(x, #[trigger] scored_view(out@)[k]),
            decreases p,
        {
            p = p - 1;
        }
        proof {
            if p > 0 {
                assert(!lt(x, scored_view(out@)[p - 1]));
            }
            lemma_insert_stable_at(scored_view(out@), x, lt, p as int);
            assert(scored_view(items@.take(i + 1)).drop_last() == scored_view(items@.take(i as int)));
            assert(scored_view(items@.take(i + 1)).last() == x);
        }
        let ghost before = out@;
        out.insert(p, (score, t));
        proof {
            assert(scored_view(out@) =~= scored_view(before).insert(p as int, x));
        }
    }
    proof {
        assert(items@.take(n as int) == items@);
    }
    out
}

impl ToolSearchMiddleware {
    /// Whether the middleware is enabled.
    pub closed spec fn enabled(&self) -> bool {
        self.config.enabled
    }

    /// The maximum number of tools exposed or found.
    pub closed spec fn limit(&self) -> nat {
        self.config.max_tools_limit as nat
    }

    /// The minimum fuzzy score of a search result.
    pub closed spec fn threshold(&self) -> int {
        self.config.search_min_score as int
    }

    /// The selection criteria, in the order they are applied.
    pub closed spec fn criteria(&self) -> Seq<Seq<char>> {
        strings_view(self.config.tool_selection_order@)
    }

    /// All indexed tools.
    pub closed spec fn index(&self) -> Seq<IndexedToolView> {
        index_view(self.tool_index@)
    }

    /// The currently exposed tools.
    pub closed spec fn exposed(&self) -> Seq<ToolView> {
        tools_view(self.exposed_tools@)
    }

    /// Whether the search tool is currently offered.
    pub closed spec fn injected(&self) -> bool {
        self.search_tool_injected
    }

    /// The configuration, as one value.
    pub open spec fn settings(&self) -> (bool, nat, int, Seq<Seq<char>>) {
        (self.enabled(), self.limit(), self.threshold(), self.criteria())
    }

    /// A middleware with the given configuration, no index and no exposed tools.
    pub fn new(config: ToolSearchMiddlewareConfig) -> (r: Self)
        ensures
            r.enabled() == config.enabled,
            r.limit() == config.max_tools_limit,
            r.threshold() == config.search_min_score,
            r.criteria() == strings_view(config.tool_selection_order@),
            r.index() == Seq::<IndexedToolView>::empty(),
            r.exposed() == Seq::<ToolView>::empty(),
            !r.injected(),
    {
        let r = ToolSearchMiddleware {
            config,
            matcher: DefaultSkimMatcher::new(),
            tool_index: Vec::new(),
            exposed_tools: Vec::new(),
            search_tool_injected: false,
        };
        proof {
            assert(r.index() =~= Seq::<IndexedToolView>::empty());
            assert(r.exposed() =~= Seq::<ToolView>::empty());
        }
        r
    }

    /// The indexed tools.
    pub fn tool_index(&self) -> (r: &Vec<IndexedTool>)
        ensures
            index_view(r@) == self.index(),
    {
        &self.tool_index
    }

    /// Replaces the index with all the given tools, in order.
    pub fn update_tool_index(&mut self, tools: &Vec<Tool>)
        ensures
            final(self).index() == tools_view(tools@).map_values(|t: ToolView| indexed_view_of(t)),
            final(self).settings() == old(self).settings(),
            final(self).exposed() == old(self).exposed(),
            final(self).injected() == old(self).injected(),
    {
        let mut index: Vec<IndexedTool> = Vec::new();
        let n = tools.len();
        for i in 0..n
            invariant
                n == tools@.len(),
                index_view(index@) == tools_view(tools@.take(i as int)).map_values(
                    |t: ToolView| indexed_view_of(t),
                ),
        {
            let tool = tools[i].clone();
            let server_name = extract_server_name(tool.name.as_str());
            let entry = IndexedTool::new(tool, server_name);
            index.push(entry);
            proof {
                assert(index_view(index@) =~= index_view(index@.drop_last()).push(entry@));
                assert(tools_view(tools@.take(i + 1)).map_values(|t: ToolView| indexed_view_of(t))
                    =~= tools_view(tools@.take(i as int)).map_values(
                    |t: ToolView| indexed_view_of(t),
                ).push(indexed_view_of(tools@[i as int]@)));
            }
        }
        proof {
            assert(tools@.take(n as int) == tools@);
        }
        self.tool_index = index;
    }

    /// Selects the tools to expose initially.
    pub fn select_initial_tools(&self, tools: &Vec<Tool>) -> (r: Vec<Tool>)
        ensures
            tools_view(r@) == initial_selection(
                tools_view(tools@),
                self.enabled(),
                self.limit(),
                self.criteria(),
            ),
    {
        if !self.config.enabled || tools.len() <= self.config.max_tools_limit {
            return clone_tools(tools);
        }
        let mut selected = clone_tools(tools);
        let criteria = &self.config.tool_selection_order;
        for c in 0..criteria.len()
            invariant
                criteria == &self.config.tool_selection_order,
                tools_view(selected@) == apply_criteria(
                    tools_view(tools@),
                    strings_view(criteria@).take(c as int),
                ),
        {
            proof {
                assert(strings_view(criteria@).take(c + 1).drop_last() == strings_view(
                    criteria@,
                ).take(c as int));
                assert(strings_view(criteria@).take(c + 1).last() == criteria@[c as int]@);
                reveal_strlit("alphabetical");
                reveal_strlit("server_priority");
            }
            if text_eq(criteria[c].as_str(), "alphabetical") {
                selected = sort_tools(selected, false);
            } else if text_eq(criteria[c].as_str(), "server_priority") {
                selected = sort_tools(selected, true);
            }
        }
        proof {
            assert(strings_view(criteria@).take(criteria@.len() as int) == strings_view(criteria@));
            lemma_apply_criteria_len(tools_view(tools@), self.criteria());
        }
        selected.truncate(self.config.max_tools_limit);
        proof {
            assert(tools_view(selected@) =~= apply_criteria(tools_view(tools@), self.criteria()).take(
                self.limit() as int,
            ));
        }
        selected
    }

    /// The special search tool that allows finding hidden tools.
    pub fn create_search_tool(&self, hidden_count: usize) -> (r: Tool)
        ensures
            r@ == search_tool_view(hidden_count as nat),
    {
        let count = decimal_text(hidden_count as u64);
        let description = concat3(
            "Search through ",
            count.as_str(),
            " additional available tools. Provide a search query to find relevant tools by name or description.",
        );
        Tool {
            name: owned("search_available_tools"),
            description: Some(description),
            input_schema: owned(
                "{\"properties\":{\"query\":{\"description\":\"Search query to find relevant tools by name or description\",\"type\":\"string\"}},\"required\":[\"query\"],\"type\":\"object\"}",
            ),
            annotations: None,
        }
    }

    /// Searches the index for tools matching the query.
    pub fn search_tools(&self, query: &str) -> (r: Vec<Tool>)
        ensures
            tools_view(r@) == search_results(self.index(), query@, self.threshold(), self.limit()),
    {
        let ghost idx = self.index();
        let ghost thr = self.threshold();
        let threshold = self.config.search_min_score as i64;
        let mut candidates: Vec<(i64, Tool)> = Vec::new();
        let n = self.tool_index.len();
        for i in 0..n
            invariant
                n == self.tool_index@.len(),
                idx == self.index(),
                thr == threshold,
                scored_view(candidates@) == scored_candidates(idx.take(i as int), query@, thr),
        {
            let entry = &self.tool_index[i];
            let score = self.matcher.fuzzy_match(entry.searchable_text.as_str(), query);
            proof {
                assert(idx.take(i + 1).drop_last() == idx.take(i as int));
                assert(idx.take(i + 1).last() == entry@);
            }
            match score {
                Some(s) => {
                    if s >= threshold {
                        let t = entry.tool.clone();
                        candidates.push((s, t));
                        proof {
                            assert(scored_view(candidates@) =~= scored_view(
                                candidates@.drop_last(),
                            ).push((s, t@)));
                        }
                    }
                },
                None => {},
            }
        }
        proof {
            assert(idx.take(n as int) == idx);
        }
        let sorted = sort_by_score(candidates);
        let ghost sv = scored_view(sorted@);
        let count = if sorted.len() < self.config.max_tools_limit {
            sorted.len()
        } else {
            self.config.max_tools_limit
        };
        let mut results: Vec<Tool> = Vec::new();
        for k in 0..count
            invariant
                count <= sorted@.len(),
                sv == scored_view(sorted@),
                tools_view(results@) == sv.take(k as int).map_values(|p: (i64, ToolView)| p.1),
        {
            let t = sorted[k].1.clone();
            results.push(t);
            proof {
                assert(tools_view(results@) =~= tools_view(results@.drop_last()).push(t@));
                assert(sv.take(k + 1).map_values(|p: (i64, ToolView)| p.1) =~= sv.take(
                    k as int,
                ).map_values(|p: (i64, ToolView)| p.1).push(sv[k as int].1));
            }
        }
        proof {
            if count == sorted@.len() {
                assert(sv.take(count as int) == sv);
            }
        }
        results
    }

    /// Replaces the exposed tools and marks the search tool as offered.
    pub fn update_exposed_tools(&mut self, new_tools: Vec<Tool>)
        ensures
            final(self).exposed() == tools_view(new_tools@),
            final(self).injected(),
            final(self).settings() == old(self).settings(),
            final(self).index() == old(self).index(),
    {
        self.exposed_tools = new_tools;
        self.search_tool_injected = true;
    }

    /// The text of the tools found by a search, for `query`.
    fn answer_text(query: &str, found: &Vec<Tool>) -> (r: String)
        ensures
            r@ == search_answer(query@, tools_view(found@)),
    {
        if found.len() == 0 {
            return concat3("No tools found matching '", query, "'.");
        }
        let count = decimal_text(found.len() as u64);
        let mut r = concat3("Found ", count.as_str(), " tool(s) matching '");
        r.append(query);
        r.append("':\n\n");
        let ghost head = r@;
        let ghost fv = tools_view(found@);
        let mut i: usize = 0;
        assert(fv.take(0) =~= Seq::<ToolView>::empty());
        assert(head + found_entries(fv.take(0)) =~= head);
        while i < found.len()
            invariant
                i <= found.len(),
                fv == tools_view(found@),
                r@ == head + found_entries(fv.take(i as int)),
            decreases found.len() - i,
        {
            let t = &found[i];
            assert(fv.take(i + 1).drop_last() =~= fv.take(i as int));
            assert(fv.take(i + 1).last() == t@);
            let number = decimal_text((i + 1) as u64);
            r.append(number.as_str());
            r.append(". **");
            r.append(t.name.as_str());
            r.append("**\n   ");
            match &t.description {
                Some(d) => r.append(d.as_str()),
                None => {
                    proof {
                        reveal_strlit("");
                    }
                    r.append("");
                },
            }
            r.append("\n\n");
            i = i + 1;
        }
        assert(fv.take(found.len() as int) =~= fv);
        r.append("These tools are now available in your current session.");
        r
    }

    /// Answers a call of the search tool: without a string `query` in its
    /// JSON arguments the call is refused as invalid and nothing changes;
    /// otherwise the tools that the query finds become the exposed tools and
    /// the answer lists them.
    pub fn call_search_tool(&mut self, arguments: &Option<String>) -> (r: Result<String, McpError>)
        ensures
            search_call_done(*old(self), *final(self), opt_view(*arguments), r),
    {
        let query = match arguments {
            Some(text) => string_field(text.as_str(), "query"),
            None => None,
        };
        match query {
            None => Err(McpError::invalid_params(owned("Missing required parameter: query"), None)),
            Some(q) => {
                let found = self.search_tools(q.as_str());
                let answer = Self::answer_text(q.as_str(), &found);
                self.update_exposed_tools(found);
                Ok(answer)
            },
        }
    }

    /// The currently exposed tools.
    pub fn get_exposed_tools(&self) -> (r: Vec<Tool>)
        ensures
            tools_view(r@) == self.exposed(),
    {
        clone_tools(&self.exposed_tools)
    }

    /// Whether the search tool is currently offered.
    pub fn is_search_tool_injected(&self) -> (r: bool)
        ensures
            r == self.injected(),
    {
        self.search_tool_injected
    }

    /// Applies the middleware to the aggregated tool list: indexes every tool,
    /// and when there are more tools than the limit, exposes the initial
    /// selection followed by the search tool.
    pub fn on_list_tools(&mut self, tools: &mut Vec<Tool>)
        ensures
            final(self).settings() == old(self).settings(),
            !old(self).enabled() ==> tools_view(final(tools)@) == tools_view(old(tools)@)
                && final(self).index() == old(self).index() && final(self).exposed() == old(
                self,
            ).exposed() && final(self).injected() == old(self).injected(),
            old(self).enabled() ==> final(self).index() == tools_view(old(tools)@).map_values(
                |t: ToolView| indexed_view_of(t),
            ),
            old(self).enabled() && old(tools)@.len() > old(self).limit() ==> tools_view(
                final(tools)@,
            ) == initial_selection(
                tools_view(old(tools)@),
                true,
                old(self).limit(),
                old(self).criteria(),
            ).push(search_tool_view((old(tools)@.len() - old(self).limit()) as nat))
                && final(self).exposed() == tools_view(final(tools)@) && final(self).injected(),
            old(self).enabled() && old(tools)@.len() <= old(self).limit() ==> tools_view(
                final(tools)@,
            ) == tools_view(old(tools)@) && final(self).exposed() == tools_view(old(tools)@)
                && !final(self).injected(),
    {
        if !self.config.enabled {
            return;
        }
        self.update_tool_index(tools);
        let mut selected_tools = self.select_initial_tools(tools);
        proof {
            lemma_apply_criteria_len(tools_view(tools@), self.criteria());
            assert(tools_view(selected_tools@).len() == selected_tools@.len());
        }
        if tools.len() > self.config.max_tools_limit {
            let hidden_count = tools.len() - selected_tools.len();
            let search_tool = self.create_search_tool(hidden_count);
            selected_tools.push(search_tool);
            let exposed = clone_tools(&selected_tools);
            self.update_exposed_tools(exposed);
            *tools = selected_tools;
            proof {
                assert(tools_view(tools@) =~= tools_view(tools@.drop_last()).push(search_tool@));
            }
        } else {
            let exposed = clone_tools(tools);
            self.update_exposed_tools(exposed);
            self.search_tool_injected = false;
        }
    }
}

/// The outcome of creating a tool search middleware from `settings`: a
/// `null` configuration means the default one.
pub open spec fn tool_search_create_outcome(settings: MiddlewareSettingsView) -> Result<ProxyKind, Seq<char>> {
    if settings.is_null {
        Ok(ProxyKind::ToolSearch(true, 50, 31, seq!["server_priority"@]))
    } else {
        match settings.as_tool_search {
            Ok((enabled, limit, threshold, criteria)) => Ok(
                ProxyKind::ToolSearch(enabled, limit, threshold, criteria),
            ),
            Err(t) => Err("Invalid tool search configuration: "@ + t),
        }
    }
}

/// Factory for creating ToolSearchMiddleware from configuration.
pub struct ToolSearchMiddlewareFactory;

impl ToolSearchMiddlewareFactory {
    /// Creates the middleware, with no index and no exposed tools.
    pub fn create(&self, config: &MiddlewareSettings) -> (r: Result<ProxyMiddlewareInstance, ProxyError>)
        ensures
            match tool_search_create_outcome(config@) {
                Ok(k) => r matches Ok(m) && proxy_kind(&m) == k && (m matches ProxyMiddlewareInstance::ToolSearch(s)
                    && s.index().len() == 0 && s.exposed().len() == 0 && !s.injected()),
                Err(msg) => r matches Err(e) && is_config_error(&e, msg),
            },
    {
        let search_config = if config.is_null {
            ToolSearchMiddlewareConfig::default()
        } else {
            match &config.as_tool_search {
                Ok(c) => c.clone(),
                Err(t) => {
                    return Err(
                        ProxyError::config(concat2("Invalid tool search configuration: ", t.as_str())),
                    );
                },
            }
        };
        Ok(ProxyMiddlewareInstance::ToolSearch(ToolSearchMiddleware::new(search_config)))
    }

    /// The type name this factory handles.
    pub fn middleware_type(&self) -> (r: &'static str)
        ensures
            r@ == "tool_search"@,
    {
        "tool_search"
    }
}

} // verus!

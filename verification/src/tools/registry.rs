//! Tool registry with two loading tiers.
//!
//! Resident tools have their full schema in the prompt; deferred tools are
//! only named there, and the model fetches their schema with a search.
use vstd::prelude::*;
use crate::text::{
    contains, eq_ignore_ascii_case, owned, split_char, split_ws, spec_to_lowercase, starts_with,
    str_contains, str_eq, str_eq_ignore_ascii_case, str_skip, str_split_char, str_split_ws,
    str_starts_with, str_trim, to_lowercase, trim, views, chars_of, string_of_range, first_occurrence,
    find_chars, occurs_at,
};
use crate::ranking::{insert_desc, sort_desc, sorted_desc, lemma_insert_desc_at, lemma_sort_desc};

verus! {

/// A tool as presented to the model API. The input schema is JSON text.
#[derive(Clone, Debug, PartialEq)]
pub struct ToolDefinition {
    pub name: String,
    pub description: String,
    pub input_schema: String,
}

/// What the registry knows of a tool: its presentation and loading tier.
/// The executable tool itself lives with the runtime, found by name.
#[derive(Clone, Debug, PartialEq)]
pub struct ToolSpec {
    pub name: String,
    pub description: String,
    /// JSON text.
    pub input_schema: String,
    /// Deferred tools are only named in the prompt.
    pub should_defer: bool,
    /// Extra words that help the search find this tool.
    pub search_hint: Option<String>,
}

impl ToolSpec {
    /// An identical copy.
    pub fn duplicate(&self) -> (r: Self)
        ensures
            r == *self,
    {
        ToolSpec {
            name: self.name.clone(),
            description: self.description.clone(),
            input_schema: self.input_schema.clone(),
            should_defer: self.should_defer,
            search_hint: match &self.search_hint {
                Some(h) => Some(h.clone()),
                None => None,
            },
        }
    }

    /// This tool's API definition.
    pub fn definition(&self) -> (d: ToolDefinition)
        ensures
            d.name == self.name,
            d.description == self.description,
            d.input_schema == self.input_schema,
    {
        ToolDefinition {
            name: self.name.clone(),
            description: self.description.clone(),
            input_schema: self.input_schema.clone(),
        }
    }
}

/// Whether `d` is the definition of `t`.
pub open spec fn defines(d: ToolDefinition, t: ToolSpec) -> bool {
    d.name == t.name && d.description == t.description && d.input_schema == t.input_schema
}

/// The tool registry.
pub struct ToolRegistry {
    /// Every tool, in registration order.
    tools: Vec<ToolSpec>,
    resident: Vec<ToolSpec>,
    deferred: Vec<ToolSpec>,
}

/// The name of the tool that loads deferred tools.
pub open spec fn tool_search_name() -> Seq<char> {
    "ToolSearch"@
}

/// Whether a tool is deferred: it asks to be, and it is not the tool
/// search, which stays resident because every deferred tool is loaded
/// through it.
pub open spec fn is_deferred(t: ToolSpec) -> bool {
    t.should_defer && t.name@ != tool_search_name()
}

/// The tools of the given tier, in order.
pub open spec fn tier(ts: Seq<ToolSpec>, defer: bool) -> Seq<ToolSpec> {
    ts.filter(|t: ToolSpec| is_deferred(t) == defer)
}

/// Number of distinct names among the tools.
pub open spec fn distinct_names(ts: Seq<ToolSpec>) -> nat
    decreases ts.len(),
{
    if ts.len() == 0 {
        0
    } else {
        let rest = ts.drop_last();
        distinct_names(rest) + if exists|i: int| 0 <= i < rest.len() && #[trigger] rest[i].name@ == ts.last().name@ {
            0nat
        } else {
            1nat
        }
    }
}

/// Index of the last tool with the given name.
pub open spec fn last_named(ts: Seq<ToolSpec>, name: Seq<char>) -> Option<int>
    decreases ts.len(),
{
    if ts.len() == 0 {
        None
    } else if ts.last().name@ == name {
        Some(ts.len() - 1)
    } else {
        last_named(ts.drop_last(), name)
    }
}

impl ToolRegistry {
    pub closed spec fn spec_tools(&self) -> Seq<ToolSpec> {
        self.tools@
    }

    /// The tiers hold the registered tools split by `is_deferred`, in order.
    #[verifier::type_invariant]
    pub closed spec fn well_formed(&self) -> bool {
        &&& self.resident@ == tier(self.tools@, false)
        &&& self.deferred@ == tier(self.tools@, true)
    }

    pub open spec fn spec_resident(&self) -> Seq<ToolSpec> {
        tier(self.spec_tools(), false)
    }

    pub open spec fn spec_deferred(&self) -> Seq<ToolSpec> {
        tier(self.spec_tools(), true)
    }

    /// Build a registry; each tool's `should_defer` decides its tier, except
    /// that the tool search is always resident.
    pub fn new(tools: Vec<ToolSpec>) -> (r: Self)
        ensures
            r.well_formed(),
            r.spec_tools() == tools@,
            forall|i: int| 0 <= i < tools@.len() && tools@[i].name@ == tool_search_name()
                ==> r.spec_resident().contains(#[trigger] tools@[i]),
    {
        proof {
            reveal_strlit("ToolSearch");
        }
        let mut resident: Vec<ToolSpec> = Vec::new();
        let mut deferred: Vec<ToolSpec> = Vec::new();
        let mut i: usize = 0;
        while i < tools.len()
            invariant
                i <= tools@.len(),
                resident@ == tier(tools@.take(i as int), false),
                deferred@ == tier(tools@.take(i as int), true),
            decreases tools@.len() - i,
        {
            proof {
                assert(tools@.take(i + 1).drop_last() =~= tools@.take(i as int));
                reveal_with_fuel(Seq::filter, 1);
            }
            let t = tools[i].duplicate();
            if t.should_defer && !crate::text::str_eq(t.name.as_str(), "ToolSearch") {
                deferred.push(t);
            } else {
                resident.push(t);
            }
            i = i + 1;
        }
        assert(tools@.take(tools@.len() as int) =~= tools@);
        proof {
            broadcast use vstd::seq_lib::group_filter_ensures;
        }
        ToolRegistry { tools, resident, deferred }
    }

    /// Definitions of the resident tools, in order.
    pub fn api_tool_definitions(&self) -> (r: Vec<ToolDefinition>)
        ensures
            r@.len() == self.spec_resident().len(),
            forall|i: int| 0 <= i < r@.len() ==> defines(#[trigger] r@[i], self.spec_resident()[i]),
    {
        proof {
            use_type_invariant(self);
        }
        definitions_of(self.resident.as_slice())
    }

    /// Names of the deferred tools, in order.
    pub fn deferred_tool_names(&self) -> (r: Vec<String>)
        ensures
            r@.len() == self.spec_deferred().len(),
            forall|i: int| 0 <= i < r@.len() ==> (#[trigger] r@[i]) == self.spec_deferred()[i].name,
    {
        proof {
            use_type_invariant(self);
        }
        let mut r: Vec<String> = Vec::new();
        let mut i: usize = 0;
        while i < self.deferred.len()
            invariant
                i <= self.deferred@.len(),
                r@.len() == i,
                forall|k: int| 0 <= k < i ==> (#[trigger] r@[k]) == self.deferred@[k].name,
            decreases self.deferred@.len() - i,
        {
            r.push(self.deferred[i].name.clone());
            i = i + 1;
        }
        r
    }

    /// The tool registered last under `name` (either tier).
    pub fn get(&self, name: &str) -> (r: Option<ToolSpec>)
        ensures
            match last_named(self.spec_tools(), name@) {
                Some(i) => r == Some(self.spec_tools()[i]),
                None => r is None,
            },
    {
        let mut i: usize = self.tools.len();
        assert(self.tools@.take(i as int) =~= self.tools@);
        while i > 0
            invariant
                i <= self.tools@.len(),
                last_named(self.tools@, name@) == last_named(self.tools@.take(i as int), name@),
            decreases i,
        {
            proof {
                assert(self.tools@.take(i as int).drop_last() =~= self.tools@.take(i - 1));
            }
            if str_eq(self.tools[i - 1].name.as_str(), name) {
                return Some(self.tools[i - 1].duplicate());
            }
            i = i - 1;
        }
        None
    }

    /// Every tool, resident first then deferred.
    pub fn all_tools(&self) -> (r: Vec<ToolSpec>)
        ensures
            r@ == self.spec_resident() + self.spec_deferred(),
    {
        proof {
            use_type_invariant(self);
        }
        let mut r: Vec<ToolSpec> = Vec::new();
        let mut i: usize = 0;
        while i < self.resident.len()
            invariant
                i <= self.resident@.len(),
                r@ == self.resident@.take(i as int),
            decreases self.resident@.len() - i,
        {
            r.push(self.resident[i].duplicate());
            i = i + 1;
            assert(r@ =~= self.resident@.take(i as int));
        }
        let mut j: usize = 0;
        while j < self.deferred.len()
            invariant
                j <= self.deferred@.len(),
                r@ == self.resident@ + self.deferred@.take(j as int),
            decreases self.deferred@.len() - j,
        {
            r.push(self.deferred[j].duplicate());
            j = j + 1;
            assert(r@ =~= self.resident@ + self.deferred@.take(j as int));
        }
        assert(self.resident@.take(self.resident@.len() as int) =~= self.resident@);
        assert(self.deferred@.take(self.deferred@.len() as int) =~= self.deferred@);
        r
    }

    /// Number of distinct tool names.
    pub fn len(&self) -> (r: usize)
        ensures
            r == distinct_names(self.spec_tools()),
    {
        let mut n: usize = 0;
        let mut i: usize = 0;
        while i < self.tools.len()
            invariant
                i <= self.tools@.len(),
                n == distinct_names(self.tools@.take(i as int)),
                n <= i,
            decreases self.tools@.len() - i,
        {
            let ghost pre = self.tools@.take(i as int);
            assert(self.tools@.take(i + 1).drop_last() =~= pre);
            let mut seen = false;
            let mut k: usize = 0;
            while k < i
                invariant
                    i < self.tools@.len(),
                    k <= i,
                    pre == self.tools@.take(i as int),
                    seen <==> exists|j: int| 0 <= j < k && #[trigger] pre[j].name@ == self.tools@[i as int].name@,
                decreases i - k,
            {
                assert(pre[k as int] == self.tools@[k as int]);
                if str_eq(self.tools[k].name.as_str(), self.tools[i].name.as_str()) {
                    seen = true;
                }
                k = k + 1;
            }
            if !seen {
                n = n + 1;
            }
            i = i + 1;
        }
        assert(self.tools@.take(self.tools@.len() as int) =~= self.tools@);
        n
    }
}

/// Definitions of the given tools, in order.
pub fn definitions_of(ts: &[ToolSpec]) -> (r: Vec<ToolDefinition>)
    ensures
        r@.len() == ts@.len(),
        forall|i: int| 0 <= i < r@.len() ==> defines(#[trigger] r@[i], ts@[i]),
{
    let mut r: Vec<ToolDefinition> = Vec::new();
    let mut i: usize = 0;
    while i < ts.len()
        invariant
            i <= ts@.len(),
            r@.len() == i,
            forall|k: int| 0 <= k < i ==> defines(#[trigger] r@[k], ts@[k]),
        decreases ts@.len() - i,
    {
        r.push(ts[i].definition());
        i = i + 1;
    }
    r
}

// ---------------------------------------------------------------------------
// Search
// ---------------------------------------------------------------------------

/// Score weights: exact name matches dominate fuzzy description matches.
pub const SCORE_EXACT_NAME: u32 = 10;
pub const SCORE_NAME_CONTAINS: u32 = 5;
pub const SCORE_HINT_CONTAINS: u32 = 4;
pub const SCORE_DESC_CONTAINS: u32 = 2;

pub open spec fn lower(s: Seq<char>) -> Seq<char> {
    spec_to_lowercase(s)
}

pub open spec fn hint_lower(t: ToolSpec) -> Seq<char> {
    match t.search_hint {
        Some(h) => lower(h@),
        None => Seq::empty(),
    }
}

/// Score of one keyword against a tool.
pub open spec fn keyword_score(t: ToolSpec, kw: Seq<char>) -> nat {
    let n = lower(t.name@);
    let k = lower(kw);
    (if n == k { SCORE_EXACT_NAME as nat } else if contains(n, k) { SCORE_NAME_CONTAINS as nat } else { 0nat })
        + (if contains(hint_lower(t), k) { SCORE_HINT_CONTAINS as nat } else { 0nat })
        + (if contains(lower(t.description@), k) { SCORE_DESC_CONTAINS as nat } else { 0nat })
}

/// Score of a tool against search keywords. Higher is a better match.
pub open spec fn tool_score(t: ToolSpec, kws: Seq<Seq<char>>) -> nat
    decreases kws.len(),
{
    if kws.len() == 0 { 0 } else { tool_score(t, kws.drop_last()) + keyword_score(t, kws.last()) }
}

proof fn lemma_tool_score_bound(t: ToolSpec, kws: Seq<Seq<char>>)
    ensures
        tool_score(t, kws) <= 16 * kws.len(),
    decreases kws.len(),
{
    if kws.len() > 0 {
        lemma_tool_score_bound(t, kws.drop_last());
    }
}

/// Score a tool against keywords.
pub fn score_tool(tool: &ToolSpec, keywords: &[String]) -> (r: u32)
    requires
        keywords@.len() <= 0x0fff_ffff,
    ensures
        r == tool_score(*tool, views(keywords@)),
{
    let name_lower = to_lowercase(tool.name.as_str());
    let desc_lower = to_lowercase(tool.description.as_str());
    let hint_l = match &tool.search_hint {
        Some(h) => to_lowercase(h.as_str()),
        None => String::new(),
    };
    let mut score: u32 = 0;
    let mut i: usize = 0;
    while i < keywords.len()
        invariant
            i <= keywords@.len() <= 0x0fff_ffff,
            name_lower@ == lower(tool.name@),
            desc_lower@ == lower(tool.description@),
            hint_l@ == hint_lower(*tool),
            score == tool_score(*tool, views(keywords@.take(i as int))),
        decreases keywords@.len() - i,
    {
        proof {
            assert(views(keywords@.take(i + 1)).drop_last() =~= views(keywords@.take(i as int)));
            lemma_tool_score_bound(*tool, views(keywords@.take(i as int)));
        }
        let kw_lower = to_lowercase(keywords[i].as_str());
        if str_eq(name_lower.as_str(), kw_lower.as_str()) {
            score = score + SCORE_EXACT_NAME;
        } else if str_contains(name_lower.as_str(), kw_lower.as_str()) {
            score = score + SCORE_NAME_CONTAINS;
        }
        if str_contains(hint_l.as_str(), kw_lower.as_str()) {
            score = score + SCORE_HINT_CONTAINS;
        }
        if str_contains(desc_lower.as_str(), kw_lower.as_str()) {
            score = score + SCORE_DESC_CONTAINS;
        }
        i = i + 1;
    }
    assert(keywords@.take(keywords@.len() as int) =~= keywords@);
    score
}



/// `(tool, score)` for the tools that pass `keep`, with a positive score, in order.
pub open spec fn scored(ts: Seq<ToolSpec>, prefix: Option<Seq<char>>, kws: Seq<Seq<char>>) -> Seq<(ToolSpec, nat)>
    decreases ts.len(),
{
    if ts.len() == 0 {
        Seq::empty()
    } else {
        let rest = scored(ts.drop_last(), prefix, kws);
        let t = ts.last();
        let passes = match prefix {
            Some(p) => contains(lower(t.name@), lower(p)),
            None => true,
        };
        if passes && tool_score(t, kws) > 0 { rest.push((t, tool_score(t, kws))) } else { rest }
    }
}

/// The query split into an optional required name prefix and search terms:
/// `"+prefix rest"` requires `prefix` in the name and ranks by `rest`.
pub open spec fn query_parts(q: Seq<char>) -> (Option<Seq<char>>, Seq<char>) {
    if starts_with(q, "+"@) {
        let rest = q.skip(1);
        match first_occurrence(rest, seq![' ']) {
            Some(p) => (Some(rest.take(p)), rest.skip(p + 1)),
            None => (Some(rest), Seq::empty()),
        }
    } else {
        (None, q)
    }
}

/// Whether `t` is named in the `select:` list (ignoring ASCII case).
pub open spec fn selected(t: ToolSpec, names: Seq<Seq<char>>) -> bool {
    exists|i: int| 0 <= i < names.len() && eq_ignore_ascii_case(t.name@, #[trigger] names[i])
}

/// The trimmed names of a `select:` query.
pub open spec fn select_names(q: Seq<char>) -> Seq<Seq<char>> {
    split_char(q.skip(7), ',').map_values(|n: Seq<char>| trim(n))
}

/// The tools a search returns, in order.
pub open spec fn search_result(deferred: Seq<ToolSpec>, q: Seq<char>, max_results: nat) -> Seq<ToolSpec> {
    if starts_with(q, "select:"@) {
        let names = select_names(q);
        deferred.filter(|t: ToolSpec| selected(t, names))
    } else {
        let (prefix, terms) = query_parts(q);
        let ranked = sort_desc(scored(deferred, prefix, split_ws(terms)));
        let kept = if ranked.len() <= max_results { ranked } else { ranked.take(max_results as int) };
        kept.map_values(|p: (ToolSpec, nat)| p.0)
    }
}


/// The query's optional prefix, as characters.
pub open spec fn opt_chars(o: Option<String>) -> Option<Seq<char>> {
    match o {
        Some(s) => Some(s@),
        None => None,
    }
}

/// `(tool, score)` pairs for positions into `ts`.
pub open spec fn at_positions(ts: Seq<ToolSpec>, r: Seq<(usize, u32)>) -> Seq<(ToolSpec, nat)> {
    r.map_values(|p: (usize, u32)| (ts[p.0 as int], p.1 as nat))
}


/// Split a search query into its optional required prefix and its terms.
fn split_query(q: &str) -> (r: (Option<String>, String))
    ensures
        opt_chars(r.0) == query_parts(q@).0,
        r.1@ == query_parts(q@).1,
{
    proof {
        reveal_strlit("+");
    }
    if !str_starts_with(q, "+") {
        return (None, owned(q));
    }
    let rest = str_skip(q, 1);
    let v = chars_of(rest.as_str());
    let sp: Vec<char> = vec![' '];
    assert(sp@ =~= seq![' ']);
    assert(v@ == q@.skip(1));
    let found = find_chars(v.as_slice(), sp.as_slice());
    match found {
        Some(p) => {
            assert(first_occurrence(q@.skip(1), seq![' ']) == Some(p as int));
            assert(occurs_at(v@, sp@, p as int));
            assert(sp@.len() == 1);
            let n = v.len();
            assert(p + 1 <= n);
            let pre = string_of_range(v.as_slice(), 0, p);
            let post = string_of_range(v.as_slice(), p + 1, n);
            assert(v@.subrange(0, p as int) =~= v@.take(p as int));
            assert(v@.subrange(p + 1, v@.len() as int) =~= v@.skip(p + 1));
            (Some(pre), post)
        },
        None => (Some(rest), String::new()),
    }
}

/// The trimmed pieces of `s` split on `sep`.
fn trimmed_pieces(s: &str, sep: char) -> (r: Vec<String>)
    ensures
        views(r@) == split_char(s@, sep).map_values(|n: Seq<char>| trim(n)),
{
    let pieces = str_split_char(s, sep);
    let mut r: Vec<String> = Vec::new();
    let mut i: usize = 0;
    while i < pieces.len()
        invariant
            i <= pieces@.len(),
            views(pieces@) == split_char(s@, sep),
            r@.len() == i,
            forall|k: int| 0 <= k < i ==> (#[trigger] r@[k])@ == trim(pieces@[k]@),
        decreases pieces@.len() - i,
    {
        r.push(str_trim(pieces[i].as_str()));
        i = i + 1;
    }
    assert(views(r@) =~= split_char(s@, sep).map_values(|n: Seq<char>| trim(n)));
    r
}

/// Whether `name` equals one of `names`, ignoring ASCII case.
fn named_in(name: &str, names: &[String]) -> (r: bool)
    ensures
        r == exists|i: int| 0 <= i < names@.len() && eq_ignore_ascii_case(name@, #[trigger] views(names@)[i]),
{
    let mut k: usize = 0;
    while k < names.len()
        invariant
            k <= names@.len(),
            forall|j: int| 0 <= j < k ==> !eq_ignore_ascii_case(name@, #[trigger] views(names@)[j]),
        decreases names@.len() - k,
    {
        if str_eq_ignore_ascii_case(name, names[k].as_str()) {
            assert(eq_ignore_ascii_case(name@, views(names@)[k as int]));
            return true;
        }
        k = k + 1;
    }
    false
}

/// Definitions of the tools of `ts` named in `names`, in order.
fn select_named(ts: &[ToolSpec], names: &[String]) -> (r: Vec<ToolDefinition>)
    ensures
        r@.len() == ts@.filter(|t: ToolSpec| selected(t, views(names@))).len(),
        forall|i: int| 0 <= i < r@.len()
            ==> defines(#[trigger] r@[i], ts@.filter(|t: ToolSpec| selected(t, views(names@)))[i]),
{
    let ghost f = |t: ToolSpec| selected(t, views(names@));
    let mut r: Vec<ToolDefinition> = Vec::new();
    let mut i: usize = 0;
    while i < ts.len()
        invariant
            i <= ts@.len(),
            f == (|t: ToolSpec| selected(t, views(names@))),
            r@.len() == ts@.take(i as int).filter(f).len(),
            forall|k: int| 0 <= k < r@.len() ==> defines(#[trigger] r@[k], ts@.take(i as int).filter(f)[k]),
        decreases ts@.len() - i,
    {
        proof {
            assert(ts@.take(i + 1).drop_last() =~= ts@.take(i as int));
            reveal_with_fuel(Seq::filter, 1);
        }
        if named_in(ts[i].name.as_str(), names) {
            r.push(ts[i].definition());
        }
        i = i + 1;
    }
    assert(ts@.take(ts@.len() as int) =~= ts@);
    r
}

/// Positions and scores of the tools of `ts` that pass the prefix and score
/// above zero, best first; equal scores keep their order.
fn rank(ts: &[ToolSpec], prefix: &Option<String>, keywords: &[String]) -> (r: Vec<(usize, u32)>)
    requires
        keywords@.len() <= 0x0fff_ffff,
    ensures
        forall|k: int| 0 <= k < r@.len() ==> (#[trigger] r@[k]).0 < ts@.len(),
        at_positions(ts@, r@) == sort_desc(scored(ts@, opt_chars(*prefix), views(keywords@))),
{
    let ghost pre = opt_chars(*prefix);
    let ghost kws = views(keywords@);
    let prefix_lower = match prefix {
        Some(p) => Some(to_lowercase(p.as_str())),
        None => None,
    };
    let mut r: Vec<(usize, u32)> = Vec::new();
    let mut i: usize = 0;
    while i < ts.len()
        invariant
            i <= ts@.len(),
            keywords@.len() <= 0x0fff_ffff,
            pre == opt_chars(*prefix),
            kws == views(keywords@),
            match prefix_lower {
                Some(pl) => pre matches Some(p) && pl@ == lower(p),
                None => pre is None,
            },
            forall|k: int| 0 <= k < r@.len() ==> (#[trigger] r@[k]).0 < i,
            at_positions(ts@, r@) == sort_desc(scored(ts@.take(i as int), pre, kws)),
        decreases ts@.len() - i,
    {
        let ghost before = at_positions(ts@, r@);
        proof {
            assert(ts@.take(i + 1).drop_last() =~= ts@.take(i as int));
        }
        let passes = match &prefix_lower {
            Some(pl) => {
                let nl = to_lowercase(ts[i].name.as_str());
                str_contains(nl.as_str(), pl.as_str())
            },
            None => true,
        };
        if passes {
            let s = score_tool(&ts[i], keywords);
            if s > 0 {
                let ghost x = (ts@[i as int], s as nat);
                let mut pos: usize = r.len();
                while pos > 0 && r[pos - 1].1 < s
                    invariant
                        pos <= r@.len(),
                        forall|k: int| pos <= k < r@.len() ==> (#[trigger] r@[k]).1 < s,
                    decreases pos,
                {
                    pos = pos - 1;
                }
                proof {
                    let sc = scored(ts@.take(i as int), pre, kws);
                    assert(scored(ts@.take(i + 1), pre, kws) == sc.push(x));
                    assert(sc.push(x).drop_last() =~= sc);
                    assert(sort_desc(sc.push(x)) == insert_desc(sort_desc(sc), x));
                    assert forall|k: int| pos <= k < before.len() implies #[trigger] before[k].1 < x.1 by {
                        assert(before[k].1 == r@[k].1 as nat);
                    }
                    if pos > 0 {
                        assert(before[pos - 1].1 == r@[pos - 1].1 as nat);
                    }
                    lemma_insert_desc_at(before, x, pos as int);
                }
                r.insert(pos, (i, s));
                proof {
                    assert(at_positions(ts@, r@) =~= before.insert(pos as int, x));
                }
            } else {
                assert(scored(ts@.take(i + 1), pre, kws) == scored(ts@.take(i as int), pre, kws));
            }
        } else {
            assert(scored(ts@.take(i + 1), pre, kws) == scored(ts@.take(i as int), pre, kws));
        }
        i = i + 1;
    }
    assert(ts@.take(ts@.len() as int) =~= ts@);
    r
}

impl ToolRegistry {
    /// Search the deferred tools.
    ///
    /// `"select:A,B"` returns the tools named A or B (ignoring ASCII case), in
    /// registration order. Otherwise the query's words rank the tools by score,
    /// best first, at most `max_results` of them; `"+prefix words"` keeps only
    /// tools whose name contains `prefix`.
    pub fn search(&self, query: &str, max_results: usize) -> (r: Vec<ToolDefinition>)
        requires
            !starts_with(query@, "select:"@) ==> split_ws(query_parts(query@).1).len() <= 0x0fff_ffff,
        ensures
            r@.len() == search_result(self.spec_deferred(), query@, max_results as nat).len(),
            forall|i: int| 0 <= i < r@.len()
                ==> defines(#[trigger] r@[i], search_result(self.spec_deferred(), query@, max_results as nat)[i]),
    {
        proof {
            use_type_invariant(self);
        }
        proof {
            reveal_strlit("select:");
        }
        if str_starts_with(query, "select:") {
            let rest = str_skip(query, 7);
            let names = trimmed_pieces(rest.as_str(), ',');
            proof {
                assert(views(names@) == select_names(query@));
            }
            return select_named(self.deferred.as_slice(), &names);
        }
        let (prefix, terms) = split_query(query);
        let keywords = str_split_ws(terms.as_str());
        proof {
            assert(views(keywords@).len() == keywords@.len());
        }
        let ranked = rank(self.deferred.as_slice(), &prefix, &keywords);
        let ghost full = sort_desc(scored(self.deferred@, opt_chars(prefix), views(keywords@)));
        let n = if ranked.len() <= max_results { ranked.len() } else { max_results };
        let ghost kept = if full.len() <= max_results { full } else { full.take(max_results as int) };
        let mut r: Vec<ToolDefinition> = Vec::new();
        let mut k: usize = 0;
        while k < n
            invariant
                n <= ranked@.len(),
                n == kept.len(),
                full == at_positions(self.deferred@, ranked@),
                kept == (if full.len() <= max_results { full } else { full.take(max_results as int) }),
                forall|j: int| 0 <= j < ranked@.len() ==> (#[trigger] ranked@[j]).0 < self.deferred@.len(),
                k <= n,
                r@.len() == k,
                forall|j: int| 0 <= j < k ==> defines(#[trigger] r@[j], kept[j].0),
            decreases n - k,
        {
            let pos = ranked[k].0;
            r.push(self.deferred[pos].definition());
            k = k + 1;
        }
        r
    }
}


// ---------------------------------------------------------------------------
// What a search promises
// ---------------------------------------------------------------------------




/// Each scored pair is a tool of the list that passes the prefix, with its
/// positive score.
proof fn lemma_scored(ts: Seq<ToolSpec>, prefix: Option<Seq<char>>, kws: Seq<Seq<char>>)
    ensures
        forall|k: int| 0 <= k < scored(ts, prefix, kws).len() ==> {
            let p = #[trigger] scored(ts, prefix, kws)[k];
            &&& ts.contains(p.0)
            &&& p.1 == tool_score(p.0, kws)
            &&& p.1 > 0
            &&& (prefix matches Some(pf) ==> contains(lower(p.0.name@), lower(pf)))
        },
    decreases ts.len(),
{
    if ts.len() > 0 {
        let d = ts.drop_last();
        lemma_scored(d, prefix, kws);
        let sc = scored(ts, prefix, kws);
        assert forall|k: int| 0 <= k < sc.len() implies ts.contains((#[trigger] sc[k]).0) by {
            if k < scored(d, prefix, kws).len() {
                assert(sc[k] == scored(d, prefix, kws)[k]);
                let m = choose|m: int| 0 <= m < d.len() && d[m] == sc[k].0;
                assert(ts[m] == d[m]);
            } else {
                assert(ts[ts.len() - 1] == sc[k].0);
            }
        }
    }
}

proof fn lemma_filter_contained(s: Seq<ToolSpec>, pred: spec_fn(ToolSpec) -> bool)
    ensures
        forall|k: int| 0 <= k < s.filter(pred).len() ==> s.contains(#[trigger] s.filter(pred)[k]),
    decreases s.len(),
{
    reveal_with_fuel(Seq::filter, 1);
    if s.len() > 0 {
        let d = s.drop_last();
        lemma_filter_contained(d, pred);
        let f = s.filter(pred);
        assert forall|k: int| 0 <= k < f.len() implies s.contains(#[trigger] f[k]) by {
            if k < d.filter(pred).len() {
                assert(f[k] == d.filter(pred)[k]);
                let m = choose|m: int| 0 <= m < d.len() && d[m] == f[k];
                assert(s[m] == d[m]);
            } else {
                assert(s[s.len() - 1] == f[k]);
            }
        }
    }
}

/// A `select:` search returns deferred tools named in the list, and every
/// deferred tool so named, in registration order.
pub proof fn lemma_select_returns_named(deferred: Seq<ToolSpec>, q: Seq<char>, max_results: nat)
    requires
        starts_with(q, "select:"@),
    ensures
        search_result(deferred, q, max_results)
            == deferred.filter(|t: ToolSpec| selected(t, select_names(q))),
        forall|i: int| 0 <= i < search_result(deferred, q, max_results).len() ==> {
            &&& deferred.contains(#[trigger] search_result(deferred, q, max_results)[i])
            &&& selected(search_result(deferred, q, max_results)[i], select_names(q))
        },
        forall|i: int| 0 <= i < deferred.len() && selected(deferred[i], select_names(q))
            ==> search_result(deferred, q, max_results).contains(#[trigger] deferred[i]),
{
    broadcast use vstd::seq_lib::group_filter_ensures;
    let pred = |t: ToolSpec| selected(t, select_names(q));
    lemma_filter_contained(deferred, pred);
}

/// A ranked search returns at most `max_results` deferred tools, each passing
/// the `+prefix` and scoring above zero on the query's words, best score first.
pub proof fn lemma_search_ranked(deferred: Seq<ToolSpec>, q: Seq<char>, max_results: nat)
    requires
        !starts_with(q, "select:"@),
    ensures
        search_result(deferred, q, max_results).len() <= max_results,
        forall|i: int| 0 <= i < search_result(deferred, q, max_results).len() ==> {
            let t = #[trigger] search_result(deferred, q, max_results)[i];
            &&& deferred.contains(t)
            &&& tool_score(t, split_ws(query_parts(q).1)) > 0
            &&& (query_parts(q).0 matches Some(pf) ==> contains(lower(t.name@), lower(pf)))
        },
        forall|i: int, j: int| 0 <= i < j < search_result(deferred, q, max_results).len()
            ==> tool_score(search_result(deferred, q, max_results)[i], split_ws(query_parts(q).1))
                >= tool_score(search_result(deferred, q, max_results)[j], split_ws(query_parts(q).1)),
{
    let (prefix, terms) = query_parts(q);
    let kws = split_ws(terms);
    let sc = scored(deferred, prefix, kws);
    let full = sort_desc(sc);
    lemma_sort_desc(sc);
    lemma_scored(deferred, prefix, kws);
    let kept = if full.len() <= max_results { full } else { full.take(max_results as int) };
    let r = search_result(deferred, q, max_results);
    assert(r == kept.map_values(|p: (ToolSpec, nat)| p.0));
    assert forall|i: int| 0 <= i < r.len() implies full[i].1 == tool_score(r[i], kws) && {
        let t = #[trigger] r[i];
        &&& deferred.contains(t)
        &&& tool_score(t, kws) > 0
        &&& (prefix matches Some(pf) ==> contains(lower(t.name@), lower(pf)))
    } by {
        assert(r[i] == full[i].0);
        let m = choose|m: int| 0 <= m < sc.len() && sc[m] == full[i];
        assert(sc[m] == full[i]);
    }
    assert forall|i: int, j: int| 0 <= i < j < r.len()
        implies tool_score(r[i], kws) >= tool_score(r[j], kws) by {
        assert(full[i].1 == tool_score(r[i], kws));
        assert(full[j].1 == tool_score(r[j], kws));
    }
}

}

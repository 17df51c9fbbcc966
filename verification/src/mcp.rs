//! MCP connections: choosing a connection by ID or name, and the HTTP
//! headers read from the environment for a custom server.

use crate::text::{
    ascii_lower, concat, eq_ignore_ascii_case, owned, same_text, seq_lt, split_once,
    split_once_spec, text_less, trim, trim_ws,
};
use vstd::prelude::*;

verus! {

/// An MCP server in the user's integration vault.
#[derive(Debug, Clone)]
pub struct UserIntegration {
    pub id: String,
    pub user_id: String,
    pub name: String,
    pub url: String,
    pub auth_kind: String,
    pub needs_reauth: bool,
    pub enabled: bool,
    pub toolkit_slug: Option<String>,
    pub logo_url: Option<String>,
    pub account: Option<String>,
    pub created_at: String,
}

/// An MCP server linked to an app.
#[derive(Debug, Clone)]
pub struct AppIntegration {
    pub id: String,
    pub app_id: String,
    pub name: String,
    pub auth_kind: String,
    pub needs_reauth: bool,
    pub toolkit_slug: Option<String>,
    pub logo_url: Option<String>,
    pub account: Option<String>,
    pub linked_by: String,
}

/// What a connection is selected by.
pub trait IntegrationIdentity {
    /// The connection's ID.
    spec fn spec_id(&self) -> Seq<char>;

    /// The connection's name.
    spec fn spec_name(&self) -> Seq<char>;

    /// The connection's ID.
    fn id(&self) -> (r: &str)
        ensures
            r@ == self.spec_id(),
    ;

    /// The connection's name.
    fn name(&self) -> (r: &str)
        ensures
            r@ == self.spec_name(),
    ;
}

impl IntegrationIdentity for UserIntegration {
    open spec fn spec_id(&self) -> Seq<char> {
        self.id@
    }

    open spec fn spec_name(&self) -> Seq<char> {
        self.name@
    }

    fn id(&self) -> (r: &str) {
        self.id.as_str()
    }

    fn name(&self) -> (r: &str) {
        self.name.as_str()
    }
}

impl IntegrationIdentity for AppIntegration {
    open spec fn spec_id(&self) -> Seq<char> {
        self.id@
    }

    open spec fn spec_name(&self) -> Seq<char> {
        self.name@
    }

    fn id(&self) -> (r: &str) {
        self.id.as_str()
    }

    fn name(&self) -> (r: &str) {
        self.name.as_str()
    }
}

/// Why an MCP command was refused.
#[derive(Debug, Clone)]
pub enum McpError {
    /// No connection has this ID or name.
    NotFound { selector: String },
    /// More than one connection has this name.
    Ambiguous { selector: String },
    /// A header binding lacks `=`.
    NotABinding { binding: String },
    /// A header binding has a blank side.
    BlankBindingName { binding: String },
    /// The environment variable of a binding is not set.
    MissingVariable { variable: String },
    /// Two bindings set the same header.
    DuplicateHeader { header: String },
}

impl McpError {
    /// The message shown for this error.
    pub fn message(&self) -> (r: String)
        ensures
            self matches McpError::Ambiguous { selector } ==> r@ == "more than one MCP server is named `"@
                + selector@ + "`; use its ID"@,
            self matches McpError::NotFound { selector } ==> r@ == "no MCP server matches `"@
                + selector@ + "`"@,
    {
        match self {
            McpError::NotFound { selector } => concat(
                concat("no MCP server matches `", selector.as_str()).as_str(),
                "`",
            ),
            McpError::Ambiguous { selector } => concat(
                concat("more than one MCP server is named `", selector.as_str()).as_str(),
                "`; use its ID",
            ),
            McpError::NotABinding { binding } => concat(
                concat("header binding `", binding.as_str()).as_str(),
                "` must use HEADER=ENV_VAR",
            ),
            McpError::BlankBindingName { binding } => concat(
                concat("header binding `", binding.as_str()).as_str(),
                "` must use non-empty names",
            ),
            McpError::MissingVariable { variable } => concat(
                concat("environment variable `", variable.as_str()).as_str(),
                "` is not set",
            ),
            McpError::DuplicateHeader { header } => concat(
                concat("header `", header.as_str()).as_str(),
                "` is configured more than once",
            ),
        }
    }
}

/// How many of `items` have a name equal to `selector` ignoring ASCII case.
pub open spec fn name_count<T: IntegrationIdentity>(items: Seq<T>, selector: Seq<char>) -> nat
    decreases items.len(),
{
    if items.len() == 0 {
        0
    } else {
        name_count(items.drop_last(), selector) + (if ascii_lower(items.last().spec_name())
            == ascii_lower(selector) {
            1nat
        } else {
            0nat
        })
    }
}

/// The first position whose ID is `selector`, if any.
pub open spec fn first_id<T: IntegrationIdentity>(items: Seq<T>, selector: Seq<char>) -> Option<int>
    decreases items.len(),
{
    if items.len() == 0 {
        None
    } else if items[0].spec_id() == selector {
        Some(0)
    } else {
        match first_id(items.drop_first(), selector) {
            Some(i) => Some(i + 1),
            None => None,
        }
    }
}

/// The first position carrying the ID `sel` is the one `first_id` finds.
proof fn lemma_first_id_at<T: IntegrationIdentity>(s: Seq<T>, sel: Seq<char>, i: int)
    requires
        0 <= i < s.len(),
        s[i].spec_id() == sel,
        forall|j: int| 0 <= j < i ==> (#[trigger] s[j]).spec_id() != sel,
    ensures
        first_id(s, sel) == Some(i),
    decreases i,
{
    if i > 0 {
        assert forall|j: int| 0 <= j < i - 1 implies (#[trigger] s.drop_first()[j]).spec_id()
            != sel by {
            assert(s.drop_first()[j] == s[j + 1]);
        }
        lemma_first_id_at(s.drop_first(), sel, i - 1);
    }
}

/// When no position carries the ID `sel`, `first_id` finds none.
proof fn lemma_first_id_none<T: IntegrationIdentity>(s: Seq<T>, sel: Seq<char>)
    requires
        forall|j: int| 0 <= j < s.len() ==> (#[trigger] s[j]).spec_id() != sel,
    ensures
        first_id(s, sel) is None,
    decreases s.len(),
{
    if s.len() > 0 {
        assert forall|j: int| 0 <= j < s.len() - 1 implies (#[trigger] s.drop_first()[j]).spec_id()
            != sel by {
            assert(s.drop_first()[j] == s[j + 1]);
        }
        lemma_first_id_none(s.drop_first(), sel);
    }
}

/// Choose a connection: the first whose ID is the selector, else the one
/// whose name matches it ignoring ASCII case, which must be unique.
pub fn select<'a, T: IntegrationIdentity>(items: &'a [T], selector: &str) -> (r: Result<
    &'a T,
    McpError,
>)
    ensures
        first_id(items@, selector@) matches Some(i) ==> (r matches Ok(x) && *x == items@[i]),
        first_id(items@, selector@) is None ==> {
            &&& name_count(items@, selector@) == 0 ==> (r matches Err(e) && e matches McpError::NotFound { selector: s } && s@ == selector@)
            &&& name_count(items@, selector@) >= 2 ==> (r matches Err(e) && e matches McpError::Ambiguous { selector: s } && s@ == selector@)
            &&& name_count(items@, selector@) == 1 ==> (r matches Ok(x) && exists|i: int|
                0 <= i < items@.len() && *x == items@[i] && ascii_lower(
                    (#[trigger] items@[i]).spec_name(),
                ) == ascii_lower(selector@))
        },
{
    let mut i: usize = 0;
    while i < items.len()
        invariant
            i <= items.len(),
            forall|j: int| 0 <= j < i ==> (#[trigger] items@[j]).spec_id() != selector@,
        decreases items.len() - i,
    {
        if same_text(items[i].id(), selector) {
            proof {
                lemma_first_id_at(items@, selector@, i as int);
            }
            return Ok(&items[i]);
        }
        i = i + 1;
    }
    proof {
        lemma_first_id_none(items@, selector@);
    }
    let mut count: usize = 0;
    let mut found: usize = 0;
    let mut k: usize = 0;
    while k < items.len()
        invariant
            k <= items.len(),
            count == name_count(items@.take(k as int), selector@),
            count <= k,
            count >= 1 ==> found < k && ascii_lower(items@[found as int].spec_name()) == ascii_lower(
                selector@,
            ),
        decreases items.len() - k,
    {
        assert(items@.take(k + 1).drop_last() =~= items@.take(k as int));
        if eq_ignore_ascii_case(items[k].name(), selector) {
            if count == 0 {
                found = k;
            }
            count = count + 1;
        }
        k = k + 1;
    }
    assert(items@.take(items.len() as int) =~= items@);
    if count == 0 {
        return Err(McpError::NotFound { selector: owned(selector) });
    }
    if count >= 2 {
        return Err(McpError::Ambiguous { selector: owned(selector) });
    }
    Ok(&items[found])
}

/// A header binding `HEADER=ENV_VAR`, both sides trimmed and non-blank.
pub open spec fn binding_spec(binding: Seq<char>) -> Option<(Seq<char>, Seq<char>)> {
    match split_once_spec(binding, '=') {
        Some((h, v)) => if trim_ws(h).len() == 0 || trim_ws(v).len() == 0 {
            None
        } else {
            Some((trim_ws(h), trim_ws(v)))
        },
        None => None,
    }
}

/// Read a header binding `HEADER=ENV_VAR` into its trimmed header and variable names.
pub fn parse_header_binding(binding: &str) -> (r: Result<(String, String), McpError>)
    ensures
        split_once_spec(binding@, '=') is None ==> (r matches Err(e) && e matches McpError::NotABinding { binding: b } && b@ == binding@),
        split_once_spec(binding@, '=') is Some && binding_spec(binding@) is None ==> (r matches Err(e) && e matches McpError::BlankBindingName { binding: b } && b@ == binding@),
        binding_spec(binding@) matches Some((h, v)) ==> (r matches Ok(p) && p.0@ == h && p.1@ == v),
{
    let (header, variable) = match split_once(binding, '=') {
        Some(p) => p,
        None => {
            return Err(McpError::NotABinding { binding: owned(binding) });
        },
    };
    let header = trim(header.as_str());
    let variable = trim(variable.as_str());
    if header.as_str().is_empty() || variable.as_str().is_empty() {
        return Err(McpError::BlankBindingName { binding: owned(binding) });
    }
    Ok((header, variable))
}

/// A header and its value.
#[derive(Debug, Clone, PartialEq, Eq)]
pub struct Header {
    pub name: String,
    pub value: String,
}

/// Header names ascend strictly.
pub open spec fn headers_ascend(v: Seq<Header>) -> bool {
    forall|i: int, j: int| 0 <= i < j < v.len() ==> seq_lt(#[trigger] v[i].name@, #[trigger] v[j].name@)
}

/// The headers as a map from name to value.
pub open spec fn header_map(v: Seq<Header>) -> Map<Seq<char>, Seq<char>>
    decreases v.len(),
{
    if v.len() == 0 {
        Map::empty()
    } else {
        header_map(v.drop_last()).insert(v.last().name@, v.last().value@)
    }
}

/// What folding the bindings with their variables' values yields: the first
/// unreadable binding, unset variable or repeated header stops it.
pub open spec fn headers_outcome(bindings: Seq<String>, values: Seq<Option<String>>) -> Result<
    Map<Seq<char>, Seq<char>>,
    int,
>
    decreases bindings.len(),
{
    if bindings.len() == 0 {
        Ok(Map::empty())
    } else {
        match headers_outcome(bindings.drop_last(), values) {
            Err(i) => Err(i),
            Ok(m) => {
                let k = bindings.len() - 1;
                match binding_spec(bindings[k]@) {
                    None => Err(k),
                    Some((h, _)) => if k >= values.len() || values[k] is None {
                        Err(k)
                    } else if m.dom().contains(h) {
                        Err(k)
                    } else {
                        Ok(m.insert(h, values[k]->Some_0@))
                    },
                }
            },
        }
    }
}

/// The error for a binding that stops the fold at position `k`.
pub open spec fn header_error(
    bindings: Seq<String>,
    values: Seq<Option<String>>,
    k: int,
    e: McpError,
) -> bool {
    let b = bindings[k]@;
    match split_once_spec(b, '=') {
        None => e matches McpError::NotABinding { binding } && binding@ == b,
        Some(_) => match binding_spec(b) {
            None => e matches McpError::BlankBindingName { binding } && binding@ == b,
            Some((h, v)) => if k >= values.len() || values[k] is None {
                e matches McpError::MissingVariable { variable } && variable@ == v
            } else {
                e matches McpError::DuplicateHeader { header } && header@ == h
            },
        },
    }
}

/// The header map holds exactly the names of the headers.
proof fn lemma_header_map_dom(v: Seq<Header>)
    ensures
        forall|k: Seq<char>| header_map(v).dom().contains(k) <==> exists|i: int|
            0 <= i < v.len() && (#[trigger] v[i]).name@ == k,
    decreases v.len(),
{
    if v.len() > 0 {
        let w = v.drop_last();
        lemma_header_map_dom(w);
        assert(header_map(v) == header_map(w).insert(v.last().name@, v.last().value@));
        assert forall|k: Seq<char>| header_map(v).dom().contains(k) <==> exists|i: int|
            0 <= i < v.len() && (#[trigger] v[i]).name@ == k by {
            if header_map(v).dom().contains(k) {
                if k == v.last().name@ {
                    assert(v[v.len() - 1].name@ == k);
                } else {
                    assert(header_map(w).dom().contains(k));
                    let i = choose|i: int| 0 <= i < w.len() && (#[trigger] w[i]).name@ == k;
                    assert(v[i] == w[i]);
                }
            }
            if exists|i: int| 0 <= i < v.len() && (#[trigger] v[i]).name@ == k {
                let i = choose|i: int| 0 <= i < v.len() && (#[trigger] v[i]).name@ == k;
                if i < v.len() - 1 {
                    assert(w[i] == v[i]);
                    assert(header_map(w).dom().contains(k));
                }
            }
        }
    }
}

/// The header map is the same whatever the order of distinct names.
proof fn lemma_header_map_insert(v: Seq<Header>, p: int, x: Header)
    requires
        0 <= p <= v.len(),
        forall|i: int| 0 <= i < v.len() ==> (#[trigger] v[i]).name@ != x.name@,
    ensures
        header_map(v.insert(p, x)) == header_map(v).insert(x.name@, x.value@),
    decreases v.len(),
{
    if p == v.len() {
        assert(v.insert(p, x) =~= v.push(x));
        assert(v.push(x).drop_last() =~= v);
    } else {
        let w = v.drop_last();
        assert forall|i: int| 0 <= i < w.len() implies (#[trigger] w[i]).name@ != x.name@ by {
            assert(w[i] == v[i]);
        }
        lemma_header_map_insert(w, p, x);
        assert(v.insert(p, x).drop_last() =~= w.insert(p, x));
        assert(v.insert(p, x).last() == v.last());
        assert(header_map(v.insert(p, x)) =~= header_map(w.insert(p, x)).insert(
            v.last().name@,
            v.last().value@,
        ));
        assert(header_map(v) =~= header_map(w).insert(v.last().name@, v.last().value@));
        assert(v.last().name@ != x.name@);
        assert(header_map(v.insert(p, x)) =~= header_map(v).insert(x.name@, x.value@));
    }
}

/// Collect the headers of the bindings, where `values[i]` is the value of
/// the variable that `bindings[i]` names, or `None` when it is unset: names
/// ascending, and the first bad binding, unset variable or repeated header
/// refused.
pub fn read_headers(bindings: &Vec<String>, values: &Vec<Option<String>>) -> (r: Result<
    Vec<Header>,
    McpError,
>)
    ensures
        r matches Ok(v) ==> headers_ascend(v@) && headers_outcome(bindings@, values@) == Ok::<
            Map<Seq<char>, Seq<char>>,
            int,
        >(header_map(v@)),
        r is Err <==> headers_outcome(bindings@, values@) is Err,
        r matches Err(e) ==> (headers_outcome(bindings@, values@) matches Err(k) && header_error(
            bindings@,
            values@,
            k,
            e,
        )),
{
    let mut out: Vec<Header> = Vec::new();
    let mut i: usize = 0;
    while i < bindings.len()
        invariant
            i <= bindings.len(),
            headers_ascend(out@),
            headers_outcome(bindings@.take(i as int), values@) == Ok::<
                Map<Seq<char>, Seq<char>>,
                int,
            >(header_map(out@)),
        decreases bindings.len() - i,
    {
        let ghost prefix = bindings@.take(i + 1);
        assert(prefix.drop_last() =~= bindings@.take(i as int));
        assert(prefix[i as int] == bindings@[i as int]);
        proof {
            lemma_header_map_dom(out@);
            lemma_outcome_prefix_err(bindings@, values@, i + 1);
        }
        let (header, variable) = match parse_header_binding(bindings[i].as_str()) {
            Ok(p) => p,
            Err(e) => {
                return Err(e);
            },
        };
        let value = if i < values.len() {
            match &values[i] {
                Some(v) => v.clone(),
                None => {
                    return Err(McpError::MissingVariable { variable });
                },
            }
        } else {
            return Err(McpError::MissingVariable { variable });
        };
        let mut p: usize = 0;
        while p < out.len() && text_less(out[p].name.as_str(), header.as_str())
            invariant
                p <= out.len(),
                forall|j: int| 0 <= j < p ==> seq_lt((#[trigger] out@[j]).name@, header@),
            decreases out.len() - p,
        {
            p = p + 1;
        }
        if p < out.len() && same_text(out[p].name.as_str(), header.as_str()) {
            assert(header_map(out@).dom().contains(header@));
            return Err(McpError::DuplicateHeader { header });
        }
        proof {
            if p < out.len() {
                crate::text::lemma_seq_lt_total(out@[p as int].name@, header@);
            }
            assert forall|j: int| 0 <= j < out@.len() implies (#[trigger] out@[j]).name@
                != header@ by {
                if j < p {
                    crate::text::lemma_seq_lt_irreflexive(header@);
                } else {
                    if j > p {
                        crate::text::lemma_seq_lt_transitive(header@, out@[p as int].name@, out@[j].name@);
                    }
                    crate::text::lemma_seq_lt_irreflexive(header@);
                }
            }
            assert(!header_map(out@).dom().contains(header@));
        }
        let ghost old_out = out@;
        let h = Header { name: header, value };
        let ghost gh = h;
        out.insert(p, h);
        proof {
            lemma_header_map_insert(old_out, p as int, gh);
            let nv = out@;
            assert forall|a: int, b: int| 0 <= a < b < nv.len() implies seq_lt(
                #[trigger] nv[a].name@,
                #[trigger] nv[b].name@,
            ) by {
                if b < p {
                    assert(nv[a] == old_out[a] && nv[b] == old_out[b]);
                } else if b == p {
                    assert(nv[a] == old_out[a]);
                } else if a == p {
                    assert(nv[b] == old_out[b - 1]);
                    if b - 1 > p {
                        crate::text::lemma_seq_lt_transitive(gh.name@, old_out[p as int].name@, old_out[b - 1].name@);
                    }
                } else if a < p {
                    assert(nv[a] == old_out[a] && nv[b] == old_out[b - 1]);
                    if b - 1 > p {
                        crate::text::lemma_seq_lt_transitive(gh.name@, old_out[p as int].name@, old_out[b - 1].name@);
                    }
                    crate::text::lemma_seq_lt_transitive(old_out[a].name@, gh.name@, old_out[b - 1].name@);
                } else {
                    assert(nv[a] == old_out[a - 1] && nv[b] == old_out[b - 1]);
                }
            }
        }
        i = i + 1;
    }
    assert(bindings@.take(bindings.len() as int) =~= bindings@);
    Ok(out)
}

/// When a prefix of the bindings fails, every longer prefix fails there too.
proof fn lemma_outcome_prefix_err(bindings: Seq<String>, values: Seq<Option<String>>, n: int)
    requires
        0 <= n <= bindings.len(),
    ensures
        headers_outcome(bindings.take(n), values) is Err ==> headers_outcome(bindings, values)
            == headers_outcome(bindings.take(n), values),
    decreases bindings.len() - n,
{
    if n < bindings.len() {
        lemma_outcome_prefix_err(bindings, values, n + 1);
        assert(bindings.take(n + 1).drop_last() =~= bindings.take(n));
    } else {
        assert(bindings.take(n) =~= bindings);
    }
}

/// The status shown for a personal connection.
pub fn personal_status(needs_reauth: bool, enabled: bool) -> (r: &'static str)
    ensures
        needs_reauth ==> r@ == "needs reauthentication"@,
        !needs_reauth && enabled ==> r@ == "ready"@,
        !needs_reauth && !enabled ==> r@ == "disabled"@,
{
    if needs_reauth {
        "needs reauthentication"
    } else if enabled {
        "ready"
    } else {
        "disabled"
    }
}

/// The status shown for an app-linked connection.
pub fn linked_status(needs_reauth: bool) -> (r: &'static str)
    ensures
        needs_reauth ==> r@ == "needs reauthentication"@,
        !needs_reauth ==> r@ == "ready"@,
{
    if needs_reauth {
        "needs reauthentication"
    } else {
        "ready"
    }
}

} // verus!

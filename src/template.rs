//! The template registry: named prompt templates, checked for syntax when
//! they are registered and rendered through handlebars in strict mode with
//! plain-text output.

use vstd::prelude::*;

use crate::config::{PromptTemplate, TemplateVariable};
use crate::error::AgentError;
use crate::storage::pairs_view;
use crate::text::{concat, decimal, decimal_string, same_text};

verus! {

#[verifier::external_type_specification]
#[verifier::external_body]
pub struct ExRegistry<'reg>(handlebars::Handlebars<'reg>);

#[verifier::external_type_specification]
#[verifier::external_body]
pub struct ExTemplateError(handlebars::TemplateError);

#[verifier::external_type_specification]
#[verifier::external_body]
pub struct ExRenderError(handlebars::RenderError);

/// A handlebars registry that lives as long as the program.
pub type Engine = handlebars::Handlebars<'static>;

/// What handlebars gives back for a registration.
pub type RegisterResult = Result<(), handlebars::TemplateError>;

/// What handlebars gives back for a render.
pub type RenderResult = Result<String, handlebars::RenderError>;

/// The template sources that a handlebars registry holds, by name.
pub uninterp spec fn engine_sources(h: Engine) -> Map<
    Seq<char>,
    Seq<char>,
>;

/// Whether a handlebars registry is in strict mode.
pub uninterp spec fn engine_strict(h: Engine) -> bool;

/// Whether a handlebars registry writes values without escaping them.
pub uninterp spec fn engine_unescaped(h: Engine) -> bool;

/// Whether handlebars accepts `source` as template syntax.
pub uninterp spec fn template_parses(source: Seq<char>) -> bool;

/// What a strict, unescaping handlebars registry holding `sources` renders
/// for the template `name` with the text variables `data`; `None` where
/// rendering fails.
pub uninterp spec fn rendered(
    sources: Map<Seq<char>, Seq<char>>,
    name: Seq<char>,
    data: Seq<(Seq<char>, Seq<char>)>,
) -> Option<Seq<char>>;

/// Relies on `Registry::new`: a registry without templates, not strict, and
/// escaping HTML.
#[verifier::external_body]
fn engine_new() -> (r: Engine)
    ensures
        engine_sources(r) =~= Map::empty(),
        !engine_strict(r),
        !engine_unescaped(r),
{
    handlebars::Handlebars::new()
}

/// Relies on `Registry::set_strict_mode`: it sets the flag and nothing else.
#[verifier::external_body]
fn engine_set_strict(h: &mut Engine, on: bool)
    ensures
        engine_strict(*final(h)) == on,
        engine_sources(*final(h)) == engine_sources(*old(h)),
        engine_unescaped(*final(h)) == engine_unescaped(*old(h)),
{
    h.set_strict_mode(on)
}

/// Relies on `Registry::register_escape_fn` with `handlebars::no_escape`,
/// which hands each value back unchanged; nothing else changes.
#[verifier::external_body]
fn engine_disable_escaping(h: &mut Engine)
    ensures
        engine_unescaped(*final(h)),
        engine_sources(*final(h)) == engine_sources(*old(h)),
        engine_strict(*final(h)) == engine_strict(*old(h)),
{
    h.register_escape_fn(handlebars::no_escape)
}

/// Relies on `Registry::register_template_string`: it parses `source`, and
/// only where that succeeds stores it under `name`, replacing what was there.
#[verifier::external_body]
fn engine_register(h: &mut Engine, name: &str, source: &str) -> (r: RegisterResult)
    ensures
        r is Ok <==> template_parses(source@),
        r is Ok ==> engine_sources(*final(h)) == engine_sources(*old(h)).insert(name@, source@),
        r is Err ==> engine_sources(*final(h)) == engine_sources(*old(h)),
        engine_strict(*final(h)) == engine_strict(*old(h)),
        engine_unescaped(*final(h)) == engine_unescaped(*old(h)),
{
    h.register_template_string(name, source)
}

/// Relies on `Registry::unregister_template`: the template of that name is
/// gone, nothing else changes.
#[verifier::external_body]
fn engine_unregister(h: &mut Engine, name: &str)
    ensures
        engine_sources(*final(h)) == engine_sources(*old(h)).remove(name@),
        engine_strict(*final(h)) == engine_strict(*old(h)),
        engine_unescaped(*final(h)) == engine_unescaped(*old(h)),
{
    h.unregister_template(name)
}

/// Relies on `Registry::render`, given the (name, text) pairs, whose names
/// are distinct, as a map. Where every chain of partial inclusions from the
/// template ends (no inline partials, plain partial names, no template
/// reached again), rendering returns: handlebars' helpers only walk the
/// finite data, and a partial is looked up among the registered templates.
#[verifier::external_body]
fn engine_render(h: &Engine, name: &str, data: &Vec<(String, String)>) -> (r: RenderResult)
    requires
        engine_strict(*h),
        engine_unescaped(*h),
        partials_terminate(engine_sources(*h), name@),
        distinct_keys(pairs_view(data@)),
    ensures
        r is Ok <==> rendered(engine_sources(*h), name@, pairs_view(data@)) is Some,
        r matches Ok(s) ==> rendered(engine_sources(*h), name@, pairs_view(data@)) == Some(s@),
{
    let map: std::collections::BTreeMap<&str, &str> = data.iter().map(
        |p| (p.0.as_str(), p.1.as_str()),
    ).collect();
    h.render(name, &map)
}

pub open spec fn is_space(c: char) -> bool {
    c == ' ' || c == '\t' || c == '\n' || c == '\r'
}

/// The first position at or after `i` that does not hold a space.
pub open spec fn skip_spaces_spec(s: Seq<char>, i: int) -> int
    decreases s.len() - i,
{
    if 0 <= i < s.len() && is_space(s[i]) {
        skip_spaces_spec(s, i + 1)
    } else {
        i
    }
}

/// Where the symbol of a tag opened at `i` stands: after `{{`, spaces, an
/// optional `~`, spaces, an optional `#` and spaces. -1 where `s` does not
/// hold `{{` at `i`.
pub open spec fn tag_symbol(s: Seq<char>, i: int) -> int {
    if 0 <= i && i + 1 < s.len() && s[i] == '{' && s[i + 1] == '{' {
        let a = skip_spaces_spec(s, i + 2);
        let b = if a < s.len() && s[a] == '~' {
            skip_spaces_spec(s, a + 1)
        } else {
            a
        };
        if b < s.len() && s[b] == '#' {
            skip_spaces_spec(s, b + 1)
        } else {
            b
        }
    } else {
        -1
    }
}

/// Whether a tag opened at `i` includes a partial (`>`).
pub open spec fn partial_at(s: Seq<char>, i: int) -> bool {
    let c = tag_symbol(s, i);
    0 <= c < s.len() && s[c] == '>'
}

/// Whether a tag opened at `i` is a decorator (`*`), which may define
/// inline partials.
pub open spec fn decorator_at(s: Seq<char>, i: int) -> bool {
    let c = tag_symbol(s, i);
    0 <= c < s.len() && s[c] == '*'
}

pub open spec fn is_name_char(c: char) -> bool {
    ('a' <= c && c <= 'z') || ('A' <= c && c <= 'Z') || ('0' <= c && c <= '9') || c == '-' || c
        == '_'
}

/// The end of the run of name characters that starts at `j`.
pub open spec fn name_end(s: Seq<char>, j: int) -> int
    decreases s.len() - j,
{
    if 0 <= j < s.len() && is_name_char(s[j]) {
        name_end(s, j + 1)
    } else {
        j
    }
}

/// The name of the partial included at `i`, where it is a plain name
/// (letters, digits, `-`, `_`) followed by a space, `}` or `~`; `None` for
/// any other form, whose target cannot be told from the text.
pub open spec fn partial_name_at(s: Seq<char>, i: int) -> Option<Seq<char>> {
    let j = skip_spaces_spec(s, tag_symbol(s, i) + 1);
    let k = name_end(s, j);
    if 0 <= j < k < s.len() && (is_space(s[k]) || s[k] == '}' || s[k] == '~') {
        Some(s.subrange(j, k))
    } else {
        None
    }
}

/// Whether every chain of partial inclusions from the template `name` in
/// `sources` ends within `fuel` steps: each template reached defines no
/// inline partial and includes only partials named plainly, and a name
/// that is not registered ends the chain. A chain through more registered
/// templates than there are must come back to one of them: partials that
/// include each other.
pub open spec fn partials_settle(sources: Map<Seq<char>, Seq<char>>, name: Seq<char>, fuel: nat) -> bool
    decreases fuel,
{
    if !sources.contains_key(name) {
        true
    } else if fuel == 0 {
        false
    } else {
        let src = sources[name];
        &&& forall|i: int| !#[trigger] decorator_at(src, i)
        &&& forall|i: int|
            #[trigger] partial_at(src, i) ==> (partial_name_at(src, i) matches Some(m)
                && partials_settle(sources, m, (fuel - 1) as nat))
    }
}

/// Whether rendering the template `name` cannot go on including partials
/// forever.
pub open spec fn partials_terminate(sources: Map<Seq<char>, Seq<char>>, name: Seq<char>) -> bool {
    exists|fuel: nat| partials_settle(sources, name, fuel)
}

/// The text of the error for partials that may include each other.
pub open spec fn cycle_text(name: Seq<char>) -> Seq<char> {
    "Partials of template '"@ + name + "' may include each other"@
}

proof fn lemma_skip_spaces(s: Seq<char>, i: int)
    requires
        0 <= i <= s.len(),
    ensures
        i <= skip_spaces_spec(s, i) <= s.len(),
    decreases s.len() - i,
{
    if i < s.len() && is_space(s[i]) {
        lemma_skip_spaces(s, i + 1);
    }
}

proof fn lemma_name_end(s: Seq<char>, j: int)
    requires
        0 <= j <= s.len(),
    ensures
        j <= name_end(s, j) <= s.len(),
    decreases s.len() - j,
{
    if j < s.len() && is_name_char(s[j]) {
        lemma_name_end(s, j + 1);
    }
}

fn space(c: char) -> (r: bool)
    ensures
        r == is_space(c),
{
    c == ' ' || c == '\t' || c == '\n' || c == '\r'
}

fn skip_spaces(cs: &Vec<char>, i: usize) -> (r: usize)
    requires
        i <= cs@.len(),
    ensures
        r as int == skip_spaces_spec(cs@, i as int),
        i <= r <= cs@.len(),
{
    let mut j = i;
    while j < cs.len() && space(cs[j])
        invariant
            i <= j <= cs@.len(),
            skip_spaces_spec(cs@, j as int) == skip_spaces_spec(cs@, i as int),
        decreases cs@.len() - j,
    {
        j = j + 1;
    }
    j
}

/// Where the symbol of the tag opened at `i` stands, if `{{` is at `i`.
fn tag_symbol_at(cs: &Vec<char>, i: usize) -> (r: Option<usize>)
    ensures
        r is None ==> tag_symbol(cs@, i as int) == -1,
        r matches Some(c) ==> c as int == tag_symbol(cs@, i as int) && c <= cs@.len(),
{
    if cs.len() >= 2 && i < cs.len() - 1 && cs[i] == '{' && cs[i + 1] == '{' {
        let a = skip_spaces(cs, i + 2);
        let b = if a < cs.len() && cs[a] == '~' {
            skip_spaces(cs, a + 1)
        } else {
            a
        };
        let c = if b < cs.len() && cs[b] == '#' {
            skip_spaces(cs, b + 1)
        } else {
            b
        };
        Some(c)
    } else {
        None
    }
}

fn name_char(c: char) -> (r: bool)
    ensures
        r == is_name_char(c),
{
    ('a' <= c && c <= 'z') || ('A' <= c && c <= 'Z') || ('0' <= c && c <= '9') || c == '-' || c
        == '_'
}

/// The plain name of the partial whose `>` is at `c`.
fn partial_name(cs: &Vec<char>, i: usize, c: usize) -> (r: Option<String>)
    requires
        c as int == tag_symbol(cs@, i as int),
        c < cs@.len(),
    ensures
        r matches Some(n) ==> partial_name_at(cs@, i as int) == Some(n@),
        r is None ==> partial_name_at(cs@, i as int) is None,
{
    assert(c < cs.len());
    let j = skip_spaces(cs, c + 1);
    let mut k = j;
    while k < cs.len() && name_char(cs[k])
        invariant
            j <= k <= cs@.len(),
            name_end(cs@, k as int) == name_end(cs@, j as int),
        decreases cs@.len() - k,
    {
        k = k + 1;
    }
    if j < k && k < cs.len() && (space(cs[k]) || cs[k] == '}' || cs[k] == '~') {
        Some(crate::text::string_of_range(cs, j, k))
    } else {
        None
    }
}

/// Whether `cs` holds a decorator tag anywhere.
fn has_decorator(cs: &Vec<char>) -> (r: bool)
    ensures
        r == exists|i: int| #[trigger] decorator_at(cs@, i),
{
    let mut i: usize = 0;
    while i < cs.len()
        invariant
            i <= cs@.len(),
            forall|j: int| 0 <= j < i ==> !#[trigger] decorator_at(cs@, j),
        decreases cs@.len() - i,
    {
        match tag_symbol_at(cs, i) {
            Some(c) => {
                if c < cs.len() && cs[c] == '*' {
                    assert(decorator_at(cs@, i as int));
                    return true;
                }
            },
            None => {},
        }
        i = i + 1;
    }
    assert forall|j: int| !#[trigger] decorator_at(cs@, j) by {
        if 0 <= j < i {
        }
    }
    false
}

/// The index of the last pair whose name is `k`, or -1.
pub open spec fn key_index(s: Seq<(Seq<char>, Seq<char>)>, k: Seq<char>) -> int
    decreases s.len(),
{
    if s.len() == 0 {
        -1
    } else if s.last().0 == k {
        s.len() - 1
    } else {
        key_index(s.drop_last(), k)
    }
}

pub open spec fn distinct_keys(s: Seq<(Seq<char>, Seq<char>)>) -> bool {
    forall|i: int, j: int| 0 <= i < s.len() && 0 <= j < s.len() && i != j ==> s[i].0 != s[j].0
}

/// The pairs with one pair per name: a later pair of a name takes the
/// place of an earlier one.
pub open spec fn merged(s: Seq<(Seq<char>, Seq<char>)>) -> Seq<(Seq<char>, Seq<char>)>
    decreases s.len(),
{
    if s.len() == 0 {
        Seq::empty()
    } else {
        let m = merged(s.drop_last());
        let j = key_index(m, s.last().0);
        if j >= 0 {
            m.update(j, s.last())
        } else {
            m.push(s.last())
        }
    }
}

proof fn lemma_key_index(s: Seq<(Seq<char>, Seq<char>)>, k: Seq<char>)
    ensures
        -1 <= key_index(s, k) < s.len(),
        key_index(s, k) >= 0 ==> s[key_index(s, k)].0 == k,
        key_index(s, k) == -1 <==> forall|i: int| 0 <= i < s.len() ==> s[i].0 != k,
    decreases s.len(),
{
    if s.len() > 0 {
        lemma_key_index(s.drop_last(), k);
        assert forall|i: int| 0 <= i < s.len() - 1 implies s.drop_last()[i] == s[i] by {}
    }
}

pub proof fn lemma_merged_distinct(s: Seq<(Seq<char>, Seq<char>)>)
    ensures
        distinct_keys(merged(s)),
    decreases s.len(),
{
    if s.len() > 0 {
        let m = merged(s.drop_last());
        lemma_merged_distinct(s.drop_last());
        lemma_key_index(m, s.last().0);
        let j = key_index(m, s.last().0);
        let r = merged(s);
        if j >= 0 {
            assert forall|a: int, b: int| 0 <= a < r.len() && 0 <= b < r.len() && a != b implies r[a].0
                != r[b].0 by {
                if a != j && b != j {
                    assert(r[a] == m[a] && r[b] == m[b]);
                } else if a == j {
                    assert(r[b] == m[b]);
                } else {
                    assert(r[a] == m[a]);
                }
            }
        } else {
            assert forall|a: int, b: int| 0 <= a < r.len() && 0 <= b < r.len() && a != b implies r[a].0
                != r[b].0 by {
                if a < m.len() && b < m.len() {
                    assert(r[a] == m[a] && r[b] == m[b]);
                } else if a < m.len() {
                    assert(r[a] == m[a]);
                } else {
                    assert(r[b] == m[b]);
                }
            }
        }
    }
}

/// Where the pair named `key` is in `pairs`.
fn key_position(pairs: &Vec<(String, String)>, key: &str) -> (r: Option<usize>)
    ensures
        r is None <==> key_index(pairs_view(pairs@), key@) == -1,
        r matches Some(j) ==> j == key_index(pairs_view(pairs@), key@),
{
    let mut j: usize = pairs.len();
    assert(pairs_view(pairs@).subrange(0, j as int) =~= pairs_view(pairs@));
    while j > 0
        invariant
            j <= pairs@.len(),
            key_index(pairs_view(pairs@), key@) == key_index(
                pairs_view(pairs@).subrange(0, j as int),
                key@,
            ),
        decreases j,
    {
        let ghost sub = pairs_view(pairs@).subrange(0, j as int);
        if same_text(pairs[j - 1].0.as_str(), key) {
            return Some(j - 1);
        }
        assert(sub.drop_last() =~= pairs_view(pairs@).subrange(0, j - 1));
        j = j - 1;
    }
    None
}

/// `pairs` with one pair per name, a later pair of a name taking the place
/// of an earlier one.
pub fn merge_pairs(pairs: &Vec<(String, String)>) -> (r: Vec<(String, String)>)
    ensures
        pairs_view(r@) == merged(pairs_view(pairs@)),
        distinct_keys(pairs_view(r@)),
{
    let mut out: Vec<(String, String)> = Vec::new();
    let mut i: usize = 0;
    while i < pairs.len()
        invariant
            i <= pairs@.len(),
            pairs_view(out@) == merged(pairs_view(pairs@.subrange(0, i as int))),
        decreases pairs@.len() - i,
    {
        let ghost pre = pairs_view(pairs@.subrange(0, i + 1));
        assert(pre.drop_last() =~= pairs_view(pairs@.subrange(0, i as int)));
        assert(pre.last() == (pairs@[i as int].0@, pairs@[i as int].1@));
        let key = pairs[i].0.clone();
        let value = pairs[i].1.clone();
        let ghost prev = out@;
        proof {
            lemma_key_index(pairs_view(out@), key@);
        }
        match key_position(&out, key.as_str()) {
            Some(j) => {
                out.set(j, (key, value));
                assert(pairs_view(out@) =~= pairs_view(prev).update(j as int, pre.last()));
            },
            None => {
                out.push((key, value));
                assert(pairs_view(out@) =~= pairs_view(prev).push(pre.last()));
            },
        }
        i = i + 1;
    }
    assert(pairs@.subrange(0, i as int) =~= pairs@);
    proof {
        lemma_merged_distinct(pairs_view(pairs@));
    }
    out
}

/// A value given to a render. Handlebars writes it as text.
#[derive(Debug, Clone)]
pub enum ContextValue {
    Text(String),
    Number(i64),
    Boolean(bool),
    /// A list of texts.
    Sequence(Vec<String>),
    /// Named texts.
    Mapping(Vec<(String, String)>),
}

/// Values to render a template with, and informational metadata.
#[derive(Debug, Clone)]
pub struct TemplateContext {
    /// Variables and their values, by name; a later pair of a name wins.
    pub variables: Vec<(String, ContextValue)>,
    /// Informational (key, value) pairs, keys unique.
    pub metadata: Vec<(String, String)>,
}

pub open spec fn signed_decimal(n: int) -> Seq<char> {
    if n < 0 {
        seq!['-'] + decimal((-n) as nat)
    } else {
        decimal(n as nat)
    }
}

/// Texts joined by `, `.
pub open spec fn joined(items: Seq<Seq<char>>) -> Seq<char>
    decreases items.len(),
{
    if items.len() == 0 {
        Seq::empty()
    } else if items.len() == 1 {
        items[0]
    } else {
        joined(items.drop_last()) + ", "@ + items.last()
    }
}

/// The text that handlebars writes for a value: a list in brackets with
/// its items joined by `, `, and a mapping as `[object]`.
pub open spec fn value_text(v: ContextValue) -> Seq<char> {
    match v {
        ContextValue::Text(s) => s@,
        ContextValue::Number(n) => signed_decimal(n as int),
        ContextValue::Boolean(b) => if b {
            "true"@
        } else {
            "false"@
        },
        ContextValue::Sequence(items) => seq!['['] + joined(items@.map_values(|s: String| s@))
            + seq![']'],
        ContextValue::Mapping(_) => "[object]"@,
    }
}

pub open spec fn has_key(vars: Seq<(String, ContextValue)>, k: Seq<char>) -> bool {
    exists|i: int| 0 <= i < vars.len() && #[trigger] vars[i].0@ == k
}

pub open spec fn missing_required(
    decl: Seq<TemplateVariable>,
    vars: Seq<(String, ContextValue)>,
    i: int,
) -> bool {
    decl[i].required && !has_key(vars, decl[i].name@)
}

/// The text of the error for a required variable without a value.
pub open spec fn missing_text(name: Seq<char>) -> Seq<char> {
    "Required variable '"@ + name + "' not provided"@
}

/// The variables of a context as (name, text) pairs.
pub open spec fn context_texts(vars: Seq<(String, ContextValue)>) -> Seq<(Seq<char>, Seq<char>)> {
    vars.map_values(|p: (String, ContextValue)| (p.0@, value_text(p.1)))
}

/// The declared variables that a context gives no value, as (name, text)
/// pairs: the default where there is one, else the empty text.
pub open spec fn filled_defaults(decl: Seq<TemplateVariable>, vars: Seq<(String, ContextValue)>) -> Seq<
    (Seq<char>, Seq<char>),
>
    decreases decl.len(),
{
    if decl.len() == 0 {
        Seq::empty()
    } else {
        let before = filled_defaults(decl.drop_last(), vars);
        let v = decl.last();
        if has_key(vars, v.name@) {
            before
        } else {
            before.push(
                (
                    v.name@,
                    match v.default {
                        Some(d) => d@,
                        None => Seq::empty(),
                    },
                ),
            )
        }
    }
}

/// What a template is rendered with: its declared variables without a
/// value in the context, filled in, then the context's own variables, one
/// pair per name, the later pair of a name winning.
pub open spec fn render_data(t: PromptTemplate, vars: Seq<(String, ContextValue)>) -> Seq<
    (Seq<char>, Seq<char>),
> {
    merged(filled_defaults(t.variables@, vars) + context_texts(vars))
}

/// The index of the last template named `n`, or -1.
pub open spec fn name_index(s: Seq<PromptTemplate>, n: Seq<char>) -> int
    decreases s.len(),
{
    if s.len() == 0 {
        -1
    } else if s.last().name@ == n {
        s.len() - 1
    } else {
        name_index(s.drop_last(), n)
    }
}

pub open spec fn unique_names(s: Seq<PromptTemplate>) -> bool {
    forall|i: int, j: int| 0 <= i < s.len() && 0 <= j < s.len() && i != j ==> s[i].name@ != s[j].name@
}

/// The sources of templates, by name.
pub open spec fn sources_of(s: Seq<PromptTemplate>) -> Map<Seq<char>, Seq<char>>
    decreases s.len(),
{
    if s.len() == 0 {
        Map::empty()
    } else {
        sources_of(s.drop_last()).insert(s.last().name@, s.last().content@)
    }
}

/// The templates after `t` is registered: it replaces the template of its
/// name in place, or else comes last.
pub open spec fn registered_after(s: Seq<PromptTemplate>, t: PromptTemplate) -> Seq<PromptTemplate> {
    let k = name_index(s, t.name@);
    if k >= 0 {
        s.update(k, t)
    } else {
        s.push(t)
    }
}

/// The templates of type `ty`, in order.
pub open spec fn of_type(s: Seq<PromptTemplate>, ty: crate::config::TemplateType) -> Seq<
    PromptTemplate,
>
    decreases s.len(),
{
    if s.len() == 0 {
        Seq::empty()
    } else if s.last().template_type == ty {
        of_type(s.drop_last(), ty).push(s.last())
    } else {
        of_type(s.drop_last(), ty)
    }
}

pub proof fn lemma_name_index(s: Seq<PromptTemplate>, n: Seq<char>)
    ensures
        -1 <= name_index(s, n) < s.len(),
        name_index(s, n) >= 0 ==> s[name_index(s, n)].name@ == n,
        name_index(s, n) == -1 <==> forall|i: int| 0 <= i < s.len() ==> s[i].name@ != n,
        unique_names(s) ==> forall|i: int| 0 <= i < s.len() && s[i].name@ == n ==> i == name_index(s, n),
    decreases s.len(),
{
    if s.len() > 0 {
        lemma_name_index(s.drop_last(), n);
        assert forall|i: int| 0 <= i < s.len() - 1 implies s.drop_last()[i] == s[i] by {}
        if s.last().name@ != n {
            assert forall|i: int| 0 <= i < s.len() && s[i].name@ == n implies i < s.len() - 1 by {}
        }
    }
}

proof fn lemma_sources_keys(s: Seq<PromptTemplate>, n: Seq<char>)
    ensures
        sources_of(s).contains_key(n) <==> name_index(s, n) >= 0,
        name_index(s, n) >= 0 ==> sources_of(s)[n] == s[name_index(s, n)].content@,
    decreases s.len(),
{
    if s.len() > 0 {
        lemma_sources_keys(s.drop_last(), n);
        lemma_name_index(s.drop_last(), n);
        if s.last().name@ != n && name_index(s, n) >= 0 {
            assert(s.drop_last()[name_index(s, n)] == s[name_index(s, n)]);
        }
    }
}

proof fn lemma_sources_update(s: Seq<PromptTemplate>, k: int, t: PromptTemplate)
    requires
        unique_names(s),
        0 <= k < s.len(),
        s[k].name@ == t.name@,
    ensures
        sources_of(s.update(k, t)) == sources_of(s).insert(t.name@, t.content@),
    decreases s.len(),
{
    let u = s.update(k, t);
    if k == s.len() - 1 {
        assert(u.drop_last() =~= s.drop_last());
        assert(sources_of(u) =~= sources_of(s).insert(t.name@, t.content@));
    } else {
        let d = s.drop_last();
        assert(u.drop_last() =~= d.update(k, t));
        assert(unique_names(d));
        lemma_sources_update(d, k, t);
        assert(s.last().name@ != t.name@);
        assert(sources_of(u) =~= sources_of(s).insert(t.name@, t.content@));
    }
}

proof fn lemma_sources_remove(s: Seq<PromptTemplate>, k: int)
    requires
        unique_names(s),
        0 <= k < s.len(),
    ensures
        sources_of(s.remove(k)) == sources_of(s).remove(s[k].name@),
    decreases s.len(),
{
    let r = s.remove(k);
    let d = s.drop_last();
    if k == s.len() - 1 {
        assert(r =~= d);
        lemma_name_index(d, s[k].name@);
        lemma_sources_keys(d, s[k].name@);
        assert(name_index(d, s[k].name@) == -1) by {
            assert forall|i: int| 0 <= i < d.len() implies d[i].name@ != s[k].name@ by {
                assert(d[i] == s[i]);
            }
        }
        assert(sources_of(r) =~= sources_of(s).remove(s[k].name@));
    } else {
        assert(r.drop_last() =~= d.remove(k));
        assert(r.last() == s.last());
        assert(unique_names(d));
        lemma_sources_remove(d, k);
        assert(d[k] == s[k]);
        assert(s.last().name@ != s[k].name@);
        assert(sources_of(r) =~= sources_of(s).remove(s[k].name@));
    }
}

proof fn lemma_unique_after_register(s: Seq<PromptTemplate>, t: PromptTemplate)
    requires
        unique_names(s),
    ensures
        unique_names(registered_after(s, t)),
        sources_of(registered_after(s, t)) == sources_of(s).insert(t.name@, t.content@),
{
    lemma_name_index(s, t.name@);
    let k = name_index(s, t.name@);
    if k >= 0 {
        lemma_sources_update(s, k, t);
    } else {
        assert(s.push(t).drop_last() =~= s);
    }
}

/// The registry of templates.
pub struct TemplateRegistry {
    templates: Vec<PromptTemplate>,
    engine: Engine,
}

impl TemplateRegistry {
    /// The registry's invariant: names are unique, and the engine holds
    /// exactly the registered sources, in strict and unescaped mode.
    pub closed spec fn wf(&self) -> bool {
        &&& unique_names(self.templates@)
        &&& engine_sources(self.engine) == sources_of(self.templates@)
        &&& engine_strict(self.engine)
        &&& engine_unescaped(self.engine)
    }

    /// The registered templates, in the order of their first registration.
    pub closed spec fn entries(&self) -> Seq<PromptTemplate> {
        self.templates@
    }

    /// An empty registry whose engine is strict (a reference to a value that
    /// is not there fails the render) and writes values unescaped.
    pub fn new() -> (r: Result<Self, AgentError>)
        ensures
            r matches Ok(reg) && reg.entries().len() == 0 && reg.wf(),
    {
        Ok(Self::empty())
    }

    fn empty() -> (r: Self)
        ensures
            r.entries().len() == 0,
            r.wf(),
    {
        let mut engine = engine_new();
        engine_set_strict(&mut engine, true);
        engine_disable_escaping(&mut engine);
        let templates: Vec<PromptTemplate> = Vec::new();
        assert(sources_of(templates@) =~= Map::empty());
        TemplateRegistry { templates, engine }
    }

    /// No two templates of a well-formed registry share a name.
    pub proof fn lemma_names_unique(&self)
        requires
            self.wf(),
        ensures
            unique_names(self.entries()),
    {
    }

    /// Register `template` under its name. Its content must be valid
    /// template syntax; otherwise the registry is left as it was.
    pub fn register_template(&mut self, template: PromptTemplate) -> (r: Result<(), AgentError>)
        requires
            old(self).wf(),
        ensures
            final(self).wf(),
            template_parses(template.content@) ==> r is Ok && final(self).entries()
                == registered_after(old(self).entries(), template),
            !template_parses(template.content@) ==> (r matches Err(AgentError::Template(m))
                && m@.subrange(0, 25) == "Invalid template syntax: "@),
            !template_parses(template.content@) ==> final(self).entries() == old(self).entries(),
    {
        let result = engine_register(&mut self.engine, template.name.as_str(), template.content.as_str());
        match result {
            Err(e) => {
                let text = e.to_string();
                let msg = concat("Invalid template syntax: ", text.as_str());
                proof {
                    reveal_strlit("Invalid template syntax: ");
                }
                assert(msg@.subrange(0, 25) =~= "Invalid template syntax: "@);
                Err(AgentError::Template(msg))
            },
            Ok(()) => {
                let ghost before = self.templates@;
                proof {
                    lemma_name_index(before, template.name@);
                    lemma_unique_after_register(before, template);
                }
                let k = self.find(template.name.as_str());
                match k {
                    Some(i) => {
                        self.templates.set(i, template);
                    },
                    None => {
                        self.templates.push(template);
                    },
                }
                Ok(())
            },
        }
    }

    /// The index of the template named `name`.
    fn find(&self, name: &str) -> (r: Option<usize>)
        ensures
            r is None <==> name_index(self.templates@, name@) == -1,
            r matches Some(i) ==> i == name_index(self.templates@, name@),
    {
        let mut i: usize = self.templates.len();
        assert(self.templates@.subrange(0, i as int) =~= self.templates@);
        while i > 0
            invariant
                i <= self.templates@.len(),
                name_index(self.templates@, name@) == name_index(
                    self.templates@.subrange(0, i as int),
                    name@,
                ),
            decreases i,
        {
            let ghost pre = self.templates@.subrange(0, i as int);
            if same_text(self.templates[i - 1].name.as_str(), name) {
                return Some(i - 1);
            }
            assert(pre.drop_last() =~= self.templates@.subrange(0, i - 1));
            i = i - 1;
        }
        None
    }

    /// The template named `name`, if one is registered.
    pub fn get_template(&self, name: &str) -> (r: Option<&PromptTemplate>)
        ensures
            name_index(self.entries(), name@) == -1 ==> r is None,
            name_index(self.entries(), name@) >= 0 ==> (r matches Some(t) && *t
                == self.entries()[name_index(self.entries(), name@)]),
    {
        proof {
            lemma_name_index(self.templates@, name@);
        }
        match self.find(name) {
            Some(i) => Some(&self.templates[i]),
            None => None,
        }
    }

    /// All registered templates.
    pub fn list_templates(&self) -> (r: Vec<&PromptTemplate>)
        requires
            self.wf(),
        ensures
            r@.len() == self.entries().len(),
            forall|i: int| 0 <= i < r@.len() ==> *r@[i] == self.entries()[i],
            forall|i: int, j: int|
                0 <= i < r@.len() && 0 <= j < r@.len() && i != j ==> r@[i].name@ != r@[j].name@,
    {
        let mut out: Vec<&PromptTemplate> = Vec::new();
        let mut i: usize = 0;
        while i < self.templates.len()
            invariant
                i <= self.templates@.len(),
                out@.len() == i,
                forall|j: int| 0 <= j < i ==> *out@[j] == self.templates@[j],
            decreases self.templates@.len() - i,
        {
            out.push(&self.templates[i]);
            i = i + 1;
        }
        out
    }

    /// The registered templates of type `template_type`, in order.
    pub fn list_templates_by_type(&self, template_type: crate::config::TemplateType) -> (r: Vec<
        &PromptTemplate,
    >)
        ensures
            r@.len() == of_type(self.entries(), template_type).len(),
            forall|i: int| 0 <= i < r@.len() ==> *r@[i] == of_type(self.entries(), template_type)[i],
    {
        let mut out: Vec<&PromptTemplate> = Vec::new();
        let mut i: usize = 0;
        while i < self.templates.len()
            invariant
                i <= self.templates@.len(),
                out@.len() == of_type(self.templates@.subrange(0, i as int), template_type).len(),
                forall|j: int| 0 <= j < out@.len() ==> *out@[j] == of_type(
                    self.templates@.subrange(0, i as int),
                    template_type,
                )[j],
            decreases self.templates@.len() - i,
        {
            let ghost pre = self.templates@.subrange(0, i + 1);
            assert(pre.drop_last() =~= self.templates@.subrange(0, i as int));
            if self.templates[i].template_type == template_type {
                out.push(&self.templates[i]);
            }
            i = i + 1;
        }
        assert(self.templates@.subrange(0, i as int) =~= self.templates@);
        out
    }

    /// Whether every chain of partial inclusions from the template `name`
    /// ends within `fuel` steps.
    fn settles(&self, name: &str, fuel: usize) -> (r: bool)
        requires
            self.wf(),
        ensures
            r == partials_settle(sources_of(self.templates@), name@, fuel as nat),
        decreases fuel,
    {
        proof {
            lemma_name_index(self.templates@, name@);
            lemma_sources_keys(self.templates@, name@);
        }
        let k = match self.find(name) {
            None => {
                return true;
            },
            Some(k) => k,
        };
        if fuel == 0 {
            return false;
        }
        let ghost sources = sources_of(self.templates@);
        let cs = crate::text::chars_of(self.templates[k].content.as_str());
        assert(cs@ == sources[name@]);
        if has_decorator(&cs) {
            return false;
        }
        let mut i: usize = 0;
        while i < cs.len()
            invariant
                i <= cs@.len(),
                sources.contains_key(name@),
                cs@ == sources[name@],
                sources == sources_of(self.templates@),
                self.wf(),
                fuel > 0,
                forall|j: int|
                    0 <= j < i && #[trigger] partial_at(cs@, j) ==> (partial_name_at(cs@, j) matches Some(m)
                        && partials_settle(sources, m, (fuel - 1) as nat)),
            decreases cs@.len() - i,
        {
            match tag_symbol_at(&cs, i) {
                Some(c) => {
                    if c < cs.len() && cs[c] == '>' {
                        assert(partial_at(cs@, i as int));
                        match partial_name(&cs, i, c) {
                            None => {
                                assert(!partials_settle(sources, name@, fuel as nat));
                                return false;
                            },
                            Some(m) => {
                                if !self.settles(m.as_str(), fuel - 1) {
                                    assert(!partials_settle(sources, name@, fuel as nat));
                                    return false;
                                }
                            },
                        }
                    }
                },
                None => {},
            }
            i = i + 1;
        }
        assert forall|j: int| #[trigger] partial_at(cs@, j) implies (partial_name_at(cs@, j) matches Some(m)
            && partials_settle(sources, m, (fuel - 1) as nat)) by {
            if 0 <= j < i {
            }
        }
        true
    }

    /// Render the template `template_name` with `context`. Fails where no
    /// template has that name, where a required variable has no value in the
    /// context (naming the first such variable), where its partials may
    /// include each other (a chain of inclusions through more templates than
    /// are registered, or one whose target cannot be told), or where handlebars
    /// fails.
    /// Declared variables without a value are rendered as their default, or
    /// as empty text.
    pub fn render_template(&self, template_name: &str, context: &TemplateContext) -> (r: Result<
        String,
        AgentError,
    >)
        requires
            self.wf(),
        ensures
            name_index(self.entries(), template_name@) == -1 ==> (r matches Err(
                AgentError::Template(m),
            ) && m@ == "Template not found: "@ + template_name@),
            name_index(self.entries(), template_name@) >= 0 ==> ({
                let t = self.entries()[name_index(self.entries(), template_name@)];
                let decl = t.variables@;
                let vars = context.variables@;
                &&& (exists|i: int| 0 <= i < decl.len() && missing_required(decl, vars, i))
                    ==> (exists|k: int|
                    0 <= k < decl.len() && missing_required(decl, vars, k) && (forall|j: int|
                        0 <= j < k ==> !missing_required(decl, vars, j)) && (r matches Err(
                        AgentError::Template(m),
                    ) && m@ == missing_text(decl[k].name@)))
                &&& (forall|i: int| 0 <= i < decl.len() ==> !missing_required(decl, vars, i))
                    && !partials_settle(
                    sources_of(self.entries()),
                    template_name@,
                    self.entries().len() as nat,
                ) ==> (r matches Err(AgentError::Template(m)) && m@ == cycle_text(template_name@))
                &&& (forall|i: int| 0 <= i < decl.len() ==> !missing_required(decl, vars, i))
                    && partials_settle(
                    sources_of(self.entries()),
                    template_name@,
                    self.entries().len() as nat,
                ) ==> match rendered(
                    sources_of(self.entries()),
                    template_name@,
                    render_data(t, vars),
                ) {
                    Some(out) => (r matches Ok(s) && s@ == out),
                    None => (r matches Err(AgentError::Template(m)) && m@.subrange(0, 27)
                        == "Failed to render template: "@),
                }
            }),
    {
        proof {
            lemma_name_index(self.templates@, template_name@);
        }
        let k = match self.find(template_name) {
            Some(k) => k,
            None => {
                return Err(AgentError::Template(concat("Template not found: ", template_name)));
            },
        };
        let template = &self.templates[k];
        match validate_variables(template, context) {
            Err(e) => {
                return Err(e);
            },
            Ok(()) => {},
        }
        if !self.settles(template_name, self.templates.len()) {
            let a = concat("Partials of template '", template_name);
            let msg = concat(a.as_str(), "' may include each other");
            return Err(AgentError::Template(msg));
        }
        let data = render_values(template, context);
        assert(partials_settle(
            sources_of(self.templates@),
            template_name@,
            self.templates@.len() as nat,
        ));
        match engine_render(&self.engine, template_name, &data) {
            Ok(s) => Ok(s),
            Err(e) => {
                let text = e.to_string();
                let msg = concat("Failed to render template: ", text.as_str());
                proof {
                    reveal_strlit("Failed to render template: ");
                }
                assert(msg@.subrange(0, 27) =~= "Failed to render template: "@);
                Err(AgentError::Template(msg))
            },
        }
    }

    /// Remove the template named `name` from the registry and its engine,
    /// handing it back where there was one.
    pub fn remove_template(&mut self, name: &str) -> (r: Option<PromptTemplate>)
        requires
            old(self).wf(),
        ensures
            final(self).wf(),
            name_index(old(self).entries(), name@) == -1 ==> r is None && final(self).entries()
                == old(self).entries(),
            name_index(old(self).entries(), name@) >= 0 ==> r == Some(
                old(self).entries()[name_index(old(self).entries(), name@)],
            ) && final(self).entries() == old(self).entries().remove(
                name_index(old(self).entries(), name@),
            ),
            name_index(final(self).entries(), name@) == -1,
    {
        proof {
            lemma_name_index(self.templates@, name@);
            lemma_sources_keys(self.templates@, name@);
        }
        engine_unregister(&mut self.engine, name);
        match self.find(name) {
            None => {
                assert(engine_sources(self.engine) =~= sources_of(self.templates@));
                None
            },
            Some(i) => {
                let ghost before = self.templates@;
                proof {
                    lemma_sources_remove(before, i as int);
                    assert forall|a: int, b: int|
                        0 <= a < before.remove(i as int).len() && 0 <= b < before.remove(
                            i as int,
                        ).len() && a != b implies before.remove(i as int)[a].name@ != before.remove(
                        i as int,
                    )[b].name@ by {
                        let a0 = if a < i { a } else { a + 1 };
                        let b0 = if b < i { b } else { b + 1 };
                        assert(before.remove(i as int)[a] == before[a0]);
                        assert(before.remove(i as int)[b] == before[b0]);
                    }
                }
                let t = self.templates.remove(i);
                proof {
                    assert forall|a: int| 0 <= a < self.templates@.len() implies #[trigger] self.templates@[a].name@
                        != name@ by {
                        let a0 = if a < i { a } else { a + 1 };
                        assert(self.templates@[a] == before[a0]);
                    }
                    lemma_name_index(self.templates@, name@);
                }
                Some(t)
            },
        }
    }

    /// Register, in order, each template that was read; a `None` stands for
    /// a file that could not be read as a template and is passed over. Stops
    /// at the first template whose syntax is rejected, keeping those
    /// before it. Gives the number of templates registered.
    pub fn register_loaded(&mut self, loaded: Vec<Option<PromptTemplate>>) -> (r: Result<
        usize,
        AgentError,
    >)
        requires
            old(self).wf(),
        ensures
            final(self).wf(),
            all_parse(loaded@) ==> r == Ok::<usize, AgentError>(count_some(loaded@) as usize)
                && final(self).entries() == register_all(old(self).entries(), loaded@),
            !all_parse(loaded@) ==> (r matches Err(AgentError::Template(_))),
            !all_parse(loaded@) ==> exists|k: int|
                0 <= k < loaded@.len() && (#[trigger] loaded@[k]) is Some && !template_parses(
                    loaded@[k]->Some_0.content@,
                ) && all_parse(loaded@.subrange(0, k)) && final(self).entries()
                    == register_all(old(self).entries(), loaded@.subrange(0, k)),
    {
        let mut count: usize = 0;
        let mut i: usize = 0;
        let ghost start = self.entries();
        let n = loaded.len();
        let mut rest = loaded;
        assert(rest@ =~= loaded@.subrange(0, n as int));
        while i < n
            invariant
                n == loaded@.len(),
                start == old(self).entries(),
                i <= n,
                rest@ == loaded@.subrange(i as int, n as int),
                all_parse(loaded@.subrange(0, i as int)),
                count == count_some(loaded@.subrange(0, i as int)),
                count <= i,
                self.wf(),
                self.entries() == register_all(start, loaded@.subrange(0, i as int)),
            decreases n - i,
        {
            let ghost pre = loaded@.subrange(0, i + 1);
            assert(pre.drop_last() =~= loaded@.subrange(0, i as int));
            let item = rest.remove(0);
            assert(item == loaded@[i as int]);
            assert(rest@ =~= loaded@.subrange(i + 1, n as int));
            match item {
                None => {},
                Some(t) => {
                    let ghost tt = t;
                    match self.register_template(t) {
                        Ok(()) => {
                            count = count + 1;
                        },
                        Err(e) => {
                            proof {
                                assert(!template_parses(tt.content@));
                                assert(loaded@[i as int] == Some(tt));
                                assert(self.entries() == register_all(
                                    start,
                                    loaded@.subrange(0, i as int),
                                ));
                                assert(!all_parse(loaded@));
                                let k = i as int;
                                assert(0 <= k < loaded@.len() && loaded@[k] is Some && !template_parses(
                                    loaded@[k]->Some_0.content@,
                                ) && all_parse(loaded@.subrange(0, k)) && self.entries()
                                    == register_all(start, loaded@.subrange(0, k)));
                            }
                            return Err(e);
                        },
                    }
                },
            }
            i = i + 1;
        }
        assert(loaded@.subrange(0, n as int) =~= loaded@);
        Ok(count)
    }
}

pub open spec fn all_parse(loaded: Seq<Option<PromptTemplate>>) -> bool {
    forall|i: int| 0 <= i < loaded.len() && (#[trigger] loaded[i]) is Some ==> template_parses(
        loaded[i]->Some_0.content@,
    )
}

pub open spec fn count_some(loaded: Seq<Option<PromptTemplate>>) -> nat
    decreases loaded.len(),
{
    if loaded.len() == 0 {
        0
    } else {
        count_some(loaded.drop_last()) + if loaded.last() is Some {
            1nat
        } else {
            0nat
        }
    }
}

/// The templates after each loaded one is registered in turn.
pub open spec fn register_all(s: Seq<PromptTemplate>, loaded: Seq<Option<PromptTemplate>>) -> Seq<
    PromptTemplate,
>
    decreases loaded.len(),
{
    if loaded.len() == 0 {
        s
    } else {
        let before = register_all(s, loaded.drop_last());
        match loaded.last() {
            Some(t) => registered_after(before, t),
            None => before,
        }
    }
}

/// Check that every variable that `template` requires has a value in
/// `context`; fails on the first one that has none.
pub fn validate_variables(template: &PromptTemplate, context: &TemplateContext) -> (r: Result<
    (),
    AgentError,
>)
    ensures
        (forall|i: int|
            0 <= i < template.variables@.len() ==> !missing_required(
                template.variables@,
                context.variables@,
                i,
            )) ==> r is Ok,
        (exists|i: int|
            0 <= i < template.variables@.len() && missing_required(
                template.variables@,
                context.variables@,
                i,
            )) ==> (exists|k: int|
            0 <= k < template.variables@.len() && missing_required(
                template.variables@,
                context.variables@,
                k,
            ) && (forall|j: int|
                0 <= j < k ==> !missing_required(template.variables@, context.variables@, j))
                && (r matches Err(AgentError::Template(m)) && m@ == missing_text(
                template.variables@[k].name@,
            ))),
{
    let decl = &template.variables;
    let mut i: usize = 0;
    while i < decl.len()
        invariant
            i <= decl@.len(),
            decl@ == template.variables@,
            forall|j: int| 0 <= j < i ==> !missing_required(decl@, context.variables@, j),
        decreases decl@.len() - i,
    {
        let v = &decl[i];
        if v.required && !context_has(context, v.name.as_str()) {
            let a = concat("Required variable '", v.name.as_str());
            let msg = concat(a.as_str(), "' not provided");
            assert(missing_required(template.variables@, context.variables@, i as int));
            assert(msg@ == missing_text(template.variables@[i as int].name@));
            return Err(AgentError::Template(msg));
        }
        i = i + 1;
    }
    Ok(())
}

/// Whether `context` gives `name` a value.
pub fn context_has(context: &TemplateContext, name: &str) -> (r: bool)
    ensures
        r == has_key(context.variables@, name@),
{
    let vars = &context.variables;
    let mut i: usize = 0;
    while i < vars.len()
        invariant
            i <= vars@.len(),
            vars@ == context.variables@,
            forall|j: int| 0 <= j < i ==> vars@[j].0@ != name@,
        decreases vars@.len() - i,
    {
        if same_text(vars[i].0.as_str(), name) {
            assert(vars@[i as int].0@ == name@);
            return true;
        }
        i = i + 1;
    }
    false
}

fn signed_decimal_string(n: i64) -> (r: String)
    ensures
        r@ == signed_decimal(n as int),
{
    if n < 0 {
        let m: u64 = (0i128 - n as i128) as u64;
        let d = decimal_string(m);
        let r = concat("-", d.as_str());
        proof {
            reveal_strlit("-");
        }
        assert(r@ =~= seq!['-'] + decimal((-n) as nat));
        r
    } else {
        decimal_string(n as u64)
    }
}

/// The text that handlebars writes for `v`.
pub fn value_string(v: &ContextValue) -> (r: String)
    ensures
        r@ == value_text(*v),
{
    match v {
        ContextValue::Text(s) => s.clone(),
        ContextValue::Number(n) => signed_decimal_string(*n),
        ContextValue::Boolean(b) => if *b {
            String::from_str("true")
        } else {
            String::from_str("false")
        },
        ContextValue::Sequence(items) => {
            let mut out = String::from_str("[");
            proof {
                reveal_strlit("[");
                reveal_strlit("]");
            }
            let ghost texts = items@.map_values(|s: String| s@);
            let mut i: usize = 0;
            while i < items.len()
                invariant
                    i <= items@.len(),
                    texts == items@.map_values(|s: String| s@),
                    out@ == seq!['['] + joined(texts.subrange(0, i as int)),
                decreases items@.len() - i,
            {
                let ghost pre = texts.subrange(0, i + 1);
                assert(pre.drop_last() =~= texts.subrange(0, i as int));
                if i > 0 {
                    out.append(", ");
                }
                out.append(items[i].as_str());
                i = i + 1;
                assert(out@ =~= seq!['['] + joined(texts.subrange(0, i as int)));
            }
            assert(texts.subrange(0, i as int) =~= texts);
            out.append("]");
            assert(out@ =~= seq!['['] + joined(texts) + seq![']']);
            out
        },
        ContextValue::Mapping(_) => String::from_str("[object]"),
    }
}

/// What `template` is rendered with for `context`.
pub fn render_values(template: &PromptTemplate, context: &TemplateContext) -> (r: Vec<
    (String, String),
>)
    ensures
        pairs_view(r@) == render_data(*template, context.variables@),
        distinct_keys(pairs_view(r@)),
{
    let decl = &template.variables;
    let vars = &context.variables;
    let mut out: Vec<(String, String)> = Vec::new();
    let mut i: usize = 0;
    while i < decl.len()
        invariant
            i <= decl@.len(),
            decl@ == template.variables@,
            vars@ == context.variables@,
            pairs_view(out@) == filled_defaults(decl@.subrange(0, i as int), vars@),
        decreases decl@.len() - i,
    {
        let ghost pre = decl@.subrange(0, i + 1);
        assert(pre.drop_last() =~= decl@.subrange(0, i as int));
        assert(pre.last() == decl@[i as int]);
        let v = &decl[i];
        let ghost prev = out@;
        if !context_has(context, v.name.as_str()) {
            let value = match &v.default {
                Some(d) => d.clone(),
                None => String::new(),
            };
            out.push((v.name.clone(), value));
            assert(pairs_view(out@) =~= pairs_view(prev).push((v.name@, value@)));
        }
        i = i + 1;
    }
    assert(decl@.subrange(0, i as int) =~= decl@);
    let ghost filled = pairs_view(out@);
    let mut j: usize = 0;
    while j < vars.len()
        invariant
            j <= vars@.len(),
            decl@ == template.variables@,
            vars@ == context.variables@,
            filled == filled_defaults(decl@, vars@),
            pairs_view(out@) == filled + context_texts(vars@.subrange(0, j as int)),
        decreases vars@.len() - j,
    {
        let ghost prev = out@;
        let text = value_string(&vars[j].1);
        out.push((vars[j].0.clone(), text));
        assert(pairs_view(out@) =~= pairs_view(prev).push((vars@[j as int].0@, text@)));
        j = j + 1;
        assert(context_texts(vars@.subrange(0, j as int)) =~= context_texts(
            vars@.subrange(0, j - 1),
        ).push((vars@[j - 1].0@, value_text(vars@[j - 1].1))));
    }
    assert(vars@.subrange(0, j as int) =~= vars@);
    merge_pairs(&out)
}

impl TemplateRegistry {
    /// A context with `variables` and no metadata.
    pub fn create_context(variables: Vec<(String, ContextValue)>) -> (r: TemplateContext)
        ensures
            r.variables@ == variables@,
            r.metadata@.len() == 0,
    {
        TemplateContext { variables, metadata: Vec::new() }
    }

    /// Set the metadata `key` of `context` to `value`, replacing an earlier
    /// value of that key.
    pub fn add_metadata(context: &mut TemplateContext, key: String, value: String)
        ensures
            final(context).variables@ == old(context).variables@,
            pair_index(old(context).metadata@, key@) >= 0 ==> final(context).metadata@ == old(
                context,
            ).metadata@.update(pair_index(old(context).metadata@, key@), (key, value)),
            pair_index(old(context).metadata@, key@) == -1 ==> final(context).metadata@ == old(
                context,
            ).metadata@.push((key, value)),
    {
        let mut i: usize = context.metadata.len();
        assert(context.metadata@.subrange(0, i as int) =~= context.metadata@);
        while i > 0
            invariant
                i <= context.metadata@.len(),
                context.metadata@ == old(context).metadata@,
                context.variables@ == old(context).variables@,
                pair_index(context.metadata@, key@) == pair_index(
                    context.metadata@.subrange(0, i as int),
                    key@,
                ),
            decreases i,
        {
            let ghost pre = context.metadata@.subrange(0, i as int);
            if same_text(context.metadata[i - 1].0.as_str(), key.as_str()) {
                context.metadata.set(i - 1, (key, value));
                return;
            }
            assert(pre.drop_last() =~= context.metadata@.subrange(0, i - 1));
            i = i - 1;
        }
        context.metadata.push((key, value));
    }
}

/// The declared variables that have a default, with it, as (name, text).
pub open spec fn declared_defaults(decl: Seq<TemplateVariable>) -> Seq<(Seq<char>, Seq<char>)>
    decreases decl.len(),
{
    if decl.len() == 0 {
        Seq::empty()
    } else {
        let before = declared_defaults(decl.drop_last());
        match decl.last().default {
            Some(d) => before.push((decl.last().name@, d@)),
            None => before,
        }
    }
}

/// A context that gives each declared variable of `template` that has a
/// default that default, as text, in declaration order.
pub fn default_context(template: &PromptTemplate) -> (r: TemplateContext)
    ensures
        context_texts(r.variables@) == declared_defaults(template.variables@),
        forall|i: int| 0 <= i < r.variables@.len() ==> (#[trigger] r.variables@[i]).1 is Text,
        r.metadata@.len() == 0,
{
    let decl = &template.variables;
    let mut vars: Vec<(String, ContextValue)> = Vec::new();
    let mut i: usize = 0;
    while i < decl.len()
        invariant
            i <= decl@.len(),
            decl@ == template.variables@,
            context_texts(vars@) == declared_defaults(decl@.subrange(0, i as int)),
            forall|j: int| 0 <= j < vars@.len() ==> (#[trigger] vars@[j]).1 is Text,
        decreases decl@.len() - i,
    {
        let ghost pre = decl@.subrange(0, i + 1);
        assert(pre.drop_last() =~= decl@.subrange(0, i as int));
        assert(pre.last() == decl@[i as int]);
        let ghost prev = vars@;
        match &decl[i].default {
            Some(d) => {
                vars.push((decl[i].name.clone(), ContextValue::Text(d.clone())));
                assert(context_texts(vars@) =~= context_texts(prev).push((decl@[i as int].name@, d@)));
            },
            None => {},
        }
        i = i + 1;
    }
    assert(decl@.subrange(0, i as int) =~= decl@);
    TemplateContext { variables: vars, metadata: Vec::new() }
}

/// The index of the last pair whose key is `k`, or -1.
pub open spec fn pair_index(s: Seq<(String, String)>, k: Seq<char>) -> int
    decreases s.len(),
{
    if s.len() == 0 {
        -1
    } else if s.last().0@ == k {
        s.len() - 1
    } else {
        pair_index(s.drop_last(), k)
    }
}

impl Default for TemplateRegistry {
    fn default() -> (r: Self)
        ensures
            r.entries().len() == 0,
            r.wf(),
    {
        Self::empty()
    }
}

} // verus!

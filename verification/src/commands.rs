//! What the interactive selector is handed: the items in their order, how
//! each is shown, the rank penalties of the priority rules and the look of
//! the selector; and the `kubectl` command lines and output handling.
use crate::app_config::{AppConfig, ColorRule, PriorityRule};
use crate::pattern::{regex_compiles, regex_error, regex_matches, CompiledPattern};
use crate::search::{first_where, lemma_first_where, lemma_first_where_is_first, lemma_first_where_push};
use crate::text::{lines, same_text, split_lines, views};
use vstd::prelude::*;
use vstd::string::StringExecFns;

verus! {

/// Tier given to a name that no priority rule matches.
pub const UNMATCHED_TIER: u32 = 0xffff_ffff;

/// Tiers above this one count as this one when penalties are computed.
pub const TIER_CAP: u32 = 10000;

/// The escape sequence that ends a coloured name.
pub open spec fn ansi_reset() -> Seq<char> {
    "\x1b[0m"@
}

/// The priority rules whose patterns compile, in their order.
pub open spec fn usable_priority_rules(rules: Seq<PriorityRule>) -> Seq<PriorityRule>
    decreases rules.len(),
{
    if rules.len() == 0 {
        seq![]
    } else {
        let before = usable_priority_rules(rules.drop_last());
        if regex_compiles(rules.last().pattern@) {
            before.push(rules.last())
        } else {
            before
        }
    }
}

/// The colour rules whose patterns compile, in their order.
pub open spec fn usable_color_rules(rules: Seq<ColorRule>) -> Seq<ColorRule>
    decreases rules.len(),
{
    if rules.len() == 0 {
        seq![]
    } else {
        let before = usable_color_rules(rules.drop_last());
        if regex_compiles(rules.last().pattern@) {
            before.push(rules.last())
        } else {
            before
        }
    }
}

/// The priority rules whose patterns do not compile, in their order: each
/// pattern with the text of the error `regex` reports for it.
pub open spec fn rejected_priority_rules(rules: Seq<PriorityRule>) -> Seq<(Seq<char>, Seq<char>)>
    decreases rules.len(),
{
    if rules.len() == 0 {
        seq![]
    } else {
        let before = rejected_priority_rules(rules.drop_last());
        match regex_error(rules.last().pattern@) {
            Some(e) => before.push((rules.last().pattern@, e)),
            None => before,
        }
    }
}

/// The colour rules whose patterns do not compile, in their order: each
/// pattern with the text of the error `regex` reports for it.
pub open spec fn rejected_color_rules(rules: Seq<ColorRule>) -> Seq<(Seq<char>, Seq<char>)>
    decreases rules.len(),
{
    if rules.len() == 0 {
        seq![]
    } else {
        let before = rejected_color_rules(rules.drop_last());
        match regex_error(rules.last().pattern@) {
            Some(e) => before.push((rules.last().pattern@, e)),
            None => before,
        }
    }
}

/// Which list a rule stands in.
#[derive(Clone, Copy, Debug, PartialEq, Eq, Structural)]
pub enum RuleKind {
    Priority,
    Color,
}

/// A rule left out because its pattern does not compile.
#[derive(Debug, Clone)]
pub struct RejectedRule {
    pub kind: RuleKind,
    pub pattern: String,
    /// The text of the error `regex` reports for the pattern.
    pub error: String,
}

pub open spec fn rejected_view(v: Seq<RejectedRule>) -> Seq<(RuleKind, Seq<char>, Seq<char>)> {
    v.map_values(|r: RejectedRule| (r.kind, r.pattern@, r.error@))
}

pub open spec fn with_kind(kind: RuleKind, v: Seq<(Seq<char>, Seq<char>)>) -> Seq<
    (RuleKind, Seq<char>, Seq<char>),
> {
    v.map_values(|x: (Seq<char>, Seq<char>)| (kind, x.0, x.1))
}

pub open spec fn priority_patterns(rules: Seq<PriorityRule>) -> Seq<Seq<char>> {
    rules.map_values(|r: PriorityRule| r.pattern@)
}

pub open spec fn color_patterns(rules: Seq<ColorRule>) -> Seq<Seq<char>> {
    rules.map_values(|r: ColorRule| r.pattern@)
}

/// Whether a pattern matches `name`.
pub open spec fn matches_name(name: Seq<char>) -> spec_fn(Seq<char>) -> bool {
    |pattern: Seq<char>| regex_matches(pattern, name)
}

/// The position of the first pattern that matches `name`.
pub open spec fn first_match(patterns: Seq<Seq<char>>, name: Seq<char>) -> Option<int> {
    first_where(patterns, matches_name(name))
}

/// The tier of `name`: the priority of the first usable rule that matches
/// it, or `UNMATCHED_TIER`.
pub open spec fn tier_of(rules: Seq<PriorityRule>, name: Seq<char>) -> u32 {
    let usable = usable_priority_rules(rules);
    match first_match(priority_patterns(usable), name) {
        Some(i) => usable[i].priority,
        None => UNMATCHED_TIER,
    }
}

/// `x` clamped into the range of `i32`, as saturating arithmetic gives it.
pub open spec fn saturate(x: int) -> i32 {
    if x > i32::MAX {
        i32::MAX
    } else if x < i32::MIN {
        i32::MIN
    } else {
        x as i32
    }
}

/// The rank penalty of `name`: its tier, capped at `TIER_CAP`, times the
/// score offset, saturated.
pub open spec fn penalty_of(rules: Seq<PriorityRule>, score_offset: i32, name: Seq<char>) -> i32 {
    let tier = tier_of(rules, name);
    let capped: int = if tier > TIER_CAP {
        TIER_CAP as int
    } else {
        tier as int
    };
    saturate(capped * score_offset)
}

/// How `name` is shown: behind the escape of the first usable colour rule
/// that matches it and followed by `ansi_reset()`, or plain.
pub open spec fn display_of(rules: Seq<ColorRule>, name: Seq<char>) -> Seq<char> {
    let usable = usable_color_rules(rules);
    match first_match(color_patterns(usable), name) {
        Some(i) => usable[i].ansi@ + name + ansi_reset(),
        None => name,
    }
}

/// One entry of the selector: what is matched and returned, and what is shown.
#[derive(Debug, Clone)]
pub struct ContextItem {
    pub name: String,
    pub display: String,
}

/// Everything the selector is started with.
#[derive(Debug, Clone)]
pub struct Selection {
    /// The entries, in the order they are handed to the selector.
    pub items: Vec<ContextItem>,
    /// The penalty of each input name, where priority rules are in force.
    pub penalties: Option<Vec<(String, i32)>>,
    /// The rules left out: the priority rules, then the colour rules.
    pub rejected: Vec<RejectedRule>,
    pub height: String,
    pub prompt: String,
    pub no_sort: bool,
    pub reverse: bool,
}

/// Whether a layout name asks for the prompt at the top.
pub open spec fn is_reverse_layout(layout: Seq<char>) -> bool {
    layout == "reverse"@ || layout == "reverse-list"@
}

/// Position in the input of the `i`-th entry handed to the selector: the
/// input order where priority rules are in force, the reverse otherwise.
pub open spec fn source_index(has_priority: bool, n: int, i: int) -> int {
    if has_priority {
        i
    } else {
        n - 1 - i
    }
}

/// The position of the first compiled pattern that matches `name`.
fn first_matching<T>(rules: &Vec<(T, CompiledPattern)>, name: &str) -> (r: Option<usize>)
    ensures
        match r {
            Some(i) => i < rules@.len() && first_match(
                rules@.map_values(|e: (T, CompiledPattern)| e.1@),
                name@,
            ) == Some(i as int),
            None => first_match(
                rules@.map_values(|e: (T, CompiledPattern)| e.1@),
                name@,
            ) is None,
        },
{
    let ghost p = rules@.map_values(|e: (T, CompiledPattern)| e.1@);
    let mut j: usize = 0;
    while j < rules.len()
        invariant
            j <= rules@.len(),
            p == rules@.map_values(|e: (T, CompiledPattern)| e.1@),
            forall|k: int| 0 <= k < j ==> !matches_name(name@)(#[trigger] p[k]),
        decreases rules.len() - j,
    {
        if rules[j].1.is_match(name) {
            proof {
                lemma_first_where(p, matches_name(name@), j as int);
            }
            return Some(j);
        }
        j = j + 1;
    }
    proof {
        lemma_first_where(p, matches_name(name@), j as int);
    }
    None
}

spec fn sources<T>(v: Seq<(T, CompiledPattern)>) -> Seq<Seq<char>> {
    v.map_values(|e: (T, CompiledPattern)| e.1@)
}

/// `v` holds the usable priority rules of `rules`, compiled.
spec fn priority_compiled(v: Seq<(u32, CompiledPattern)>, rules: Seq<PriorityRule>) -> bool {
    let usable = usable_priority_rules(rules);
    &&& v.len() == usable.len()
    &&& forall|k: int|
        0 <= k < v.len() ==> (#[trigger] v[k]).0 == usable[k].priority && v[k].1@
            == usable[k].pattern@
}

/// `v` holds the usable colour rules of `rules`, compiled.
spec fn color_compiled(v: Seq<(String, CompiledPattern)>, rules: Seq<ColorRule>) -> bool {
    let usable = usable_color_rules(rules);
    &&& v.len() == usable.len()
    &&& forall|k: int|
        0 <= k < v.len() ==> (#[trigger] v[k]).0@ == usable[k].ansi@ && v[k].1@
            == usable[k].pattern@
}

/// The priority rules whose patterns compile, compiled.
fn compile_priority_rules(rules: &Vec<PriorityRule>, rejected: &mut Vec<RejectedRule>) -> (r: Vec<
    (u32, CompiledPattern),
>)
    ensures
        priority_compiled(r@, rules@),
        rejected_view(final(rejected)@) == rejected_view(old(rejected)@) + with_kind(
            RuleKind::Priority,
            rejected_priority_rules(rules@),
        ),
{
    let ghost start = rejected@;
    let mut r: Vec<(u32, CompiledPattern)> = Vec::new();
    let mut i: usize = 0;
    assert(rules@.take(0) =~= Seq::<PriorityRule>::empty());
    assert(rejected_view(rejected@) =~= rejected_view(start) + with_kind(
        RuleKind::Priority,
        rejected_priority_rules(rules@.take(0)),
    ));
    while i < rules.len()
        invariant
            i <= rules@.len(),
            rejected_view(rejected@) == rejected_view(start) + with_kind(
                RuleKind::Priority,
                rejected_priority_rules(rules@.take(i as int)),
            ),
            r@.len() == usable_priority_rules(rules@.take(i as int)).len(),
            forall|k: int|
                0 <= k < r@.len() ==> (#[trigger] r@[k]).0 == usable_priority_rules(
                    rules@.take(i as int),
                )[k].priority && r@[k].1@ == usable_priority_rules(
                    rules@.take(i as int),
                )[k].pattern@,
        decreases rules.len() - i,
    {
        assert(rules@.take(i + 1).drop_last() == rules@.take(i as int));
        assert(rules@.take(i + 1).last() == rules@[i as int]);
        let ghost before = rejected@;
        let ghost prior = rejected_priority_rules(rules@.take(i as int));
        match CompiledPattern::new(rules[i].pattern.as_str()) {
            Ok(p) => {
                r.push((rules[i].priority, p));
            },
            Err(e) => {
                let item = RejectedRule {
                    kind: RuleKind::Priority,
                    pattern: rules[i].pattern.clone(),
                    error: e,
                };
                rejected.push(item);
                assert(rejected_view(rejected@) =~= rejected_view(before).push(
                    (item.kind, item.pattern@, item.error@),
                ));
                assert(with_kind(RuleKind::Priority, prior.push((item.pattern@, item.error@)))
                    =~= with_kind(RuleKind::Priority, prior).push(
                    (item.kind, item.pattern@, item.error@),
                ));
            },
        }
        i = i + 1;
    }
    assert(rules@.take(rules@.len() as int) == rules@);
    r
}

/// The colour rules whose patterns compile, compiled.
fn compile_color_rules(rules: &Vec<ColorRule>, rejected: &mut Vec<RejectedRule>) -> (r: Vec<
    (String, CompiledPattern),
>)
    ensures
        color_compiled(r@, rules@),
        rejected_view(final(rejected)@) == rejected_view(old(rejected)@) + with_kind(
            RuleKind::Color,
            rejected_color_rules(rules@),
        ),
{
    let ghost start = rejected@;
    let mut r: Vec<(String, CompiledPattern)> = Vec::new();
    let mut i: usize = 0;
    assert(rules@.take(0) =~= Seq::<ColorRule>::empty());
    assert(rejected_view(rejected@) =~= rejected_view(start) + with_kind(
        RuleKind::Color,
        rejected_color_rules(rules@.take(0)),
    ));
    while i < rules.len()
        invariant
            i <= rules@.len(),
            rejected_view(rejected@) == rejected_view(start) + with_kind(
                RuleKind::Color,
                rejected_color_rules(rules@.take(i as int)),
            ),
            r@.len() == usable_color_rules(rules@.take(i as int)).len(),
            forall|k: int|
                0 <= k < r@.len() ==> (#[trigger] r@[k]).0@ == usable_color_rules(
                    rules@.take(i as int),
                )[k].ansi@ && r@[k].1@ == usable_color_rules(
                    rules@.take(i as int),
                )[k].pattern@,
        decreases rules.len() - i,
    {
        assert(rules@.take(i + 1).drop_last() == rules@.take(i as int));
        assert(rules@.take(i + 1).last() == rules@[i as int]);
        let ghost before = rejected@;
        let ghost prior = rejected_color_rules(rules@.take(i as int));
        match CompiledPattern::new(rules[i].pattern.as_str()) {
            Ok(p) => {
                r.push((rules[i].ansi.clone(), p));
            },
            Err(e) => {
                let item = RejectedRule {
                    kind: RuleKind::Color,
                    pattern: rules[i].pattern.clone(),
                    error: e,
                };
                rejected.push(item);
                assert(rejected_view(rejected@) =~= rejected_view(before).push(
                    (item.kind, item.pattern@, item.error@),
                ));
                assert(with_kind(RuleKind::Color, prior.push((item.pattern@, item.error@)))
                    =~= with_kind(RuleKind::Color, prior).push(
                    (item.kind, item.pattern@, item.error@),
                ));
            },
        }
        i = i + 1;
    }
    assert(rules@.take(rules@.len() as int) == rules@);
    r
}

/// `a * b`, saturated at the bounds of `i32`.
pub fn saturating_mul(a: i32, b: i32) -> (r: i32)
    ensures
        r == saturate(a * b),
{
    assert(-0x4000_0000_0000_0000 <= (a as i64) * (b as i64) <= 0x4000_0000_0000_0000) by (nonlinear_arith)
        requires
            i32::MIN <= a <= i32::MAX,
            i32::MIN <= b <= i32::MAX,
    ;
    let wide: i64 = (a as i64) * (b as i64);
    if wide > i32::MAX as i64 {
        i32::MAX
    } else if wide < i32::MIN as i64 {
        i32::MIN
    } else {
        wide as i32
    }
}

/// The tier of `name` under the compiled priority rules.
fn tier_for(
    compiled: &Vec<(u32, CompiledPattern)>,
    Ghost(rules): Ghost<Seq<PriorityRule>>,
    name: &str,
) -> (t: u32)
    requires
        priority_compiled(compiled@, rules),
    ensures
        t == tier_of(rules, name@),
{
    assert(sources(compiled@) =~= priority_patterns(usable_priority_rules(rules)));
    match first_matching(compiled, name) {
        Some(i) => compiled[i].0,
        None => UNMATCHED_TIER,
    }
}

/// The rank penalty of `name` under the compiled priority rules.
fn penalty_for(
    compiled: &Vec<(u32, CompiledPattern)>,
    Ghost(rules): Ghost<Seq<PriorityRule>>,
    score_offset: i32,
    name: &str,
) -> (p: i32)
    requires
        priority_compiled(compiled@, rules),
    ensures
        p == penalty_of(rules, score_offset, name@),
{
    let tier = tier_for(compiled, Ghost(rules), name);
    let capped: i32 = if tier > TIER_CAP {
        TIER_CAP as i32
    } else {
        tier as i32
    };
    saturating_mul(capped, score_offset)
}

/// How `name` is shown under the compiled colour rules.
fn display_for(
    compiled: &Vec<(String, CompiledPattern)>,
    Ghost(rules): Ghost<Seq<ColorRule>>,
    name: &String,
) -> (d: String)
    requires
        color_compiled(compiled@, rules),
    ensures
        d@ == display_of(rules, name@),
{
    assert(sources(compiled@) =~= color_patterns(usable_color_rules(rules)));
    match first_matching(compiled, name.as_str()) {
        Some(i) => {
            let mut d = compiled[i].0.clone();
            d.append(name.as_str());
            d.append("\x1b[0m");
            d
        },
        None => name.clone(),
    }
}

/// The entry for `name`.
fn item_for(
    compiled: &Vec<(String, CompiledPattern)>,
    Ghost(rules): Ghost<Seq<ColorRule>>,
    name: &String,
) -> (item: ContextItem)
    requires
        color_compiled(compiled@, rules),
    ensures
        item.name@ == name@,
        item.display@ == display_of(rules, name@),
{
    ContextItem { name: name.clone(), display: display_for(compiled, Ghost(rules), name) }
}

/// Prepares the selector for choosing one of `input`: compiles the rules of
/// `cfg` (a rule whose pattern does not compile is left out, and reported
/// with the error `regex` gives for it), builds each
/// entry with its display, orders the entries (the input order where a
/// usable priority rule exists, the reverse otherwise), and computes each
/// name's rank penalty where a usable priority rule exists.
pub fn prepare_selection(input: Vec<String>, cfg: &AppConfig) -> (s: Selection)
    ensures
        ({
            let selector = cfg.selector;
            let has_priority = usable_priority_rules(selector.priority_rules@).len() > 0;
            let n = input@.len() as int;
            &&& s.items@.len() == n
            &&& forall|i: int|
                0 <= i < n ==> {
                    let name = input@[source_index(has_priority, n, i)]@;
                    &&& (#[trigger] s.items@[i]).name@ == name
                    &&& s.items@[i].display@ == display_of(selector.color_rules@, name)
                }
            &&& (s.penalties is Some <==> has_priority)
            &&& (s.penalties matches Some(p) ==> {
                &&& p@.len() == n
                &&& forall|i: int|
                    0 <= i < n ==> (#[trigger] p@[i]).0@ == input@[i]@ && p@[i].1 == penalty_of(
                        selector.priority_rules@,
                        selector.score_offset,
                        input@[i]@,
                    )
            })
            &&& rejected_view(s.rejected@) == with_kind(
                RuleKind::Priority,
                rejected_priority_rules(selector.priority_rules@),
            ) + with_kind(RuleKind::Color, rejected_color_rules(selector.color_rules@))
            &&& s.height@ == selector.height@
            &&& s.prompt@ == selector.prompt@
            &&& s.no_sort == selector.no_sort
            &&& s.reverse == is_reverse_layout(selector.layout@)
            &&& s.reverse == (selector.layout@ == "reverse"@ || selector.layout@ == "reverse-list"@)
            &&& !has_priority ==> forall|i: int|
                0 <= i < n ==> (#[trigger] s.items@[i]).name@ == input@[n - 1 - i]@
            &&& has_priority ==> forall|i: int|
                0 <= i < n ==> (#[trigger] s.items@[i]).name@ == input@[i]@
        }),
{
    let selector = &cfg.selector;
    let ghost prules = selector.priority_rules@;
    let ghost crules = selector.color_rules@;
    let mut rejected: Vec<RejectedRule> = Vec::new();
    let priority = compile_priority_rules(&selector.priority_rules, &mut rejected);
    let colors = compile_color_rules(&selector.color_rules, &mut rejected);
    let has_priority = priority.len() > 0;
    let n = input.len();
    let penalties = if has_priority {
        let mut p: Vec<(String, i32)> = Vec::new();
        let mut i: usize = 0;
        while i < n
            invariant
                n == input@.len(),
                i <= n,
                priority_compiled(priority@, prules),
                p@.len() == i,
                forall|k: int|
                    0 <= k < i ==> (#[trigger] p@[k]).0@ == input@[k]@ && p@[k].1 == penalty_of(
                        prules,
                        selector.score_offset,
                        input@[k]@,
                    ),
            decreases n - i,
        {
            let penalty = penalty_for(
                &priority,
                Ghost(prules),
                selector.score_offset,
                input[i].as_str(),
            );
            p.push((input[i].clone(), penalty));
            i = i + 1;
        }
        Some(p)
    } else {
        None
    };
    let mut items: Vec<ContextItem> = Vec::new();
    let mut i: usize = 0;
    while i < n
        invariant
            n == input@.len(),
            i <= n,
            color_compiled(colors@, crules),
            items@.len() == i,
            forall|k: int|
                0 <= k < i ==> {
                    let name = input@[source_index(has_priority, n as int, k)]@;
                    &&& (#[trigger] items@[k]).name@ == name
                    &&& items@[k].display@ == display_of(crules, name)
                },
        decreases n - i,
    {
        let from = if has_priority {
            i
        } else {
            n - 1 - i
        };
        let item = item_for(&colors, Ghost(crules), &input[from]);
        items.push(item);
        i = i + 1;
    }
    let reverse = same_text(selector.layout.as_str(), "reverse") || same_text(
        selector.layout.as_str(),
        "reverse-list",
    );
    Selection {
        items,
        penalties,
        rejected,
        height: selector.height.clone(),
        prompt: selector.prompt.clone(),
        no_sort: selector.no_sort,
        reverse,
    }
}

/// The rank of an entry once its penalty is added, saturated; an entry
/// without a penalty keeps its rank.
pub fn adjusted_rank(rank: i32, penalty: Option<i32>) -> (r: i32)
    ensures
        r == match penalty {
            Some(p) => saturate(rank + p),
            None => rank,
        },
{
    match penalty {
        Some(p) => {
            let wide: i64 = rank as i64 + p as i64;
            if wide > i32::MAX as i64 {
                i32::MAX
            } else if wide < i32::MIN as i64 {
                i32::MIN
            } else {
                wide as i32
            }
        },
        None => rank,
    }
}

/// What the selector returns: the first selected entry, where the choice
/// was accepted and something was selected.
pub fn pick_selection(accepted: bool, selected: Vec<String>) -> (r: Option<String>)
    ensures
        r is Some <==> accepted && selected@.len() > 0,
        r matches Some(v) ==> v@ == selected@[0]@,
{
    if accepted && selected.len() > 0 {
        Some(selected[0].clone())
    } else {
        None
    }
}

/// `l` without its first element.
pub open spec fn skip_first(l: Seq<Seq<char>>) -> Seq<Seq<char>> {
    if l.len() == 0 {
        l
    } else {
        l.drop_first()
    }
}

/// The namespace names in the output of
/// `kubectl get namespace -o=custom-columns=Name:.metadata.name`: its lines
/// after the header line.
pub fn parse_namespaces(output: &str) -> (r: Vec<String>)
    ensures
        views(r@) == skip_first(lines(output@)),
{
    let all = split_lines(output);
    let mut r: Vec<String> = Vec::new();
    if all.len() == 0 {
        assert(views(r@) =~= skip_first(lines(output@)));
        return r;
    }
    let mut i: usize = 1;
    assert(views(r@) =~= views(all@).subrange(1, 1));
    while i < all.len()
        invariant
            1 <= i <= all@.len(),
            views(all@) == lines(output@),
            views(r@) == views(all@).subrange(1, i as int),
        decreases all.len() - i,
    {
        let ghost before = r@;
        r.push(all[i].clone());
        assert(views(r@) =~= views(before).push(all@[i as int]@));
        assert(views(all@).subrange(1, i + 1) =~= views(all@).subrange(1, i as int).push(
            all@[i as int]@,
        ));
        i = i + 1;
    }
    assert(views(all@).subrange(1, all@.len() as int) =~= views(all@).drop_first());
    r
}

/// `prefix` followed by `s`.
fn prefixed(prefix: &str, s: &str) -> (r: String)
    ensures
        r@ == prefix@ + s@,
{
    let mut r = String::from_str(prefix);
    r.append(s);
    r
}

/// The arguments of `kubectl` that set the namespace of context `ctx` in the
/// kubeconfig file `target`.
pub fn set_default_namespace_args(ns: &str, ctx: &str, target: &str) -> (args: Vec<String>)
    ensures
        views(args@) == seq![
            "config"@,
            "--kubeconfig="@ + target@,
            "set-context"@,
            ctx@,
            "--namespace="@ + ns@,
        ],
{
    let mut args: Vec<String> = Vec::new();
    args.push(String::from_str("config"));
    args.push(prefixed("--kubeconfig=", target));
    args.push(String::from_str("set-context"));
    args.push(String::from_str(ctx));
    args.push(prefixed("--namespace=", ns));
    assert(views(args@) =~= seq![
        "config"@,
        "--kubeconfig="@ + target@,
        "set-context"@,
        ctx@,
        "--namespace="@ + ns@,
    ]);
    args
}

/// The arguments of `kubectl` that make `ctx` the current context of the
/// kubeconfig file `target`.
pub fn set_default_context_args(ctx: &str, target: &str) -> (args: Vec<String>)
    ensures
        views(args@) == seq!["config"@, "--kubeconfig="@ + target@, "use-context"@, ctx@],
{
    let mut args: Vec<String> = Vec::new();
    args.push(String::from_str("config"));
    args.push(prefixed("--kubeconfig=", target));
    args.push(String::from_str("use-context"));
    args.push(String::from_str(ctx));
    assert(views(args@) =~= seq!["config"@, "--kubeconfig="@ + target@, "use-context"@, ctx@]);
    args
}

/// With a non-negative score offset, a name in a lower tier never gets a
/// larger penalty than a name in a higher tier, so it never sorts later for
/// that reason; and a name that no rule matches gets a penalty at least
/// that of any name.
pub proof fn lemma_penalty_follows_tier(
    rules: Seq<PriorityRule>,
    score_offset: i32,
    a: Seq<char>,
    b: Seq<char>,
)
    requires
        score_offset >= 0,
    ensures
        tier_of(rules, a) <= tier_of(rules, b) ==> penalty_of(rules, score_offset, a)
            <= penalty_of(rules, score_offset, b),
        tier_of(rules, b) == UNMATCHED_TIER ==> penalty_of(rules, score_offset, a) <= penalty_of(
            rules,
            score_offset,
            b,
        ),
{
    let ta = tier_of(rules, a);
    let tb = tier_of(rules, b);
    if ta <= tb {
        let ca: int = if ta > TIER_CAP {
            TIER_CAP as int
        } else {
            ta as int
        };
        let cb: int = if tb > TIER_CAP {
            TIER_CAP as int
        } else {
            tb as int
        };
        let off = score_offset as int;
        assert(ca * off <= cb * off) by (nonlinear_arith)
            requires
                ca <= cb,
                off >= 0,
        ;
    }
}

/// The displayed text of a name holds the name itself, at the returned
/// position; and the name is shown unchanged where no usable colour rule
/// matches it.
pub proof fn lemma_display_holds_name(rules: Seq<ColorRule>, name: Seq<char>) -> (lo: int)
    ensures
        0 <= lo,
        lo + name.len() <= display_of(rules, name).len(),
        display_of(rules, name).subrange(lo, lo + name.len()) == name,
        first_match(color_patterns(usable_color_rules(rules)), name) is None ==> display_of(
            rules,
            name,
        ) == name,
{
    let usable = usable_color_rules(rules);
    let d = display_of(rules, name);
    lemma_first_where_is_first(color_patterns(usable), matches_name(name));
    assert(color_patterns(usable).len() == usable.len());
    match first_match(color_patterns(usable), name) {
        Some(i) => {
            let lo = usable[i].ansi@.len() as int;
            assert(d.subrange(lo, lo + name.len()) =~= name);
            lo
        },
        None => {
            assert(d.subrange(0, name.len() as int) =~= name);
            0
        },
    }
}

/// A rule that is used (its pattern compiles) and matches `name`.
spec fn color_rule_hits(r: ColorRule, name: Seq<char>) -> bool {
    regex_compiles(r.pattern@) && regex_matches(r.pattern@, name)
}

spec fn priority_rule_hits(r: PriorityRule, name: Seq<char>) -> bool {
    regex_compiles(r.pattern@) && regex_matches(r.pattern@, name)
}

/// The first colour rule that is used and matches `name`, found among the
/// usable rules: its position among all rules and among the usable ones.
proof fn lemma_first_hit_color(rules: Seq<ColorRule>, name: Seq<char>) -> (r: Option<(int, int)>)
    ensures
        match r {
            Some((i, k)) => {
                &&& 0 <= i < rules.len()
                &&& color_rule_hits(rules[i], name)
                &&& forall|j: int| 0 <= j < i ==> !color_rule_hits(#[trigger] rules[j], name)
                &&& 0 <= k < usable_color_rules(rules).len()
                &&& usable_color_rules(rules)[k] == rules[i]
                &&& first_match(color_patterns(usable_color_rules(rules)), name) == Some(k)
            },
            None => {
                &&& forall|j: int| 0 <= j < rules.len() ==> !color_rule_hits(#[trigger] rules[j], name)
                &&& first_match(color_patterns(usable_color_rules(rules)), name) is None
            },
        },
    decreases rules.len(),
{
    if rules.len() == 0 {
        return None;
    }
    let front = rules.drop_last();
    let x = rules.last();
    let before = lemma_first_hit_color(front, name);
    let u0 = usable_color_rules(front);
    let u = usable_color_rules(rules);
    let p0 = color_patterns(u0);
    let pm = matches_name(name);
    assert forall|j: int| 0 <= j < front.len() implies front[j] == rules[j] by {}
    if regex_compiles(x.pattern@) {
        assert(u == u0.push(x));
        assert(color_patterns(u) =~= p0.push(x.pattern@));
        lemma_first_where_push(p0, x.pattern@, pm);
    } else {
        assert(u == u0);
    }
    match before {
        Some((i, k)) => Some((i, k)),
        None => {
            if color_rule_hits(x, name) {
                Some((rules.len() - 1, u0.len() as int))
            } else {
                None
            }
        },
    }
}

/// The first priority rule that is used and matches `name`, found among the
/// usable rules: its position among all rules and among the usable ones.
proof fn lemma_first_hit_priority(rules: Seq<PriorityRule>, name: Seq<char>) -> (r: Option<
    (int, int),
>)
    ensures
        match r {
            Some((i, k)) => {
                &&& 0 <= i < rules.len()
                &&& priority_rule_hits(rules[i], name)
                &&& forall|j: int| 0 <= j < i ==> !priority_rule_hits(#[trigger] rules[j], name)
                &&& 0 <= k < usable_priority_rules(rules).len()
                &&& usable_priority_rules(rules)[k] == rules[i]
                &&& first_match(priority_patterns(usable_priority_rules(rules)), name) == Some(k)
            },
            None => {
                &&& forall|j: int|
                    0 <= j < rules.len() ==> !priority_rule_hits(#[trigger] rules[j], name)
                &&& first_match(priority_patterns(usable_priority_rules(rules)), name) is None
            },
        },
    decreases rules.len(),
{
    if rules.len() == 0 {
        return None;
    }
    let front = rules.drop_last();
    let x = rules.last();
    let before = lemma_first_hit_priority(front, name);
    let u0 = usable_priority_rules(front);
    let u = usable_priority_rules(rules);
    let p0 = priority_patterns(u0);
    let pm = matches_name(name);
    assert forall|j: int| 0 <= j < front.len() implies front[j] == rules[j] by {}
    if regex_compiles(x.pattern@) {
        assert(u == u0.push(x));
        assert(priority_patterns(u) =~= p0.push(x.pattern@));
        lemma_first_where_push(p0, x.pattern@, pm);
    } else {
        assert(u == u0);
    }
    match before {
        Some((i, k)) => Some((i, k)),
        None => {
            if priority_rule_hits(x, name) {
                Some((rules.len() - 1, u0.len() as int))
            } else {
                None
            }
        },
    }
}

/// How a name is shown: behind the escape of the first colour rule whose
/// pattern compiles and matches the name, and followed by the reset escape;
/// plain where no such rule exists.
pub proof fn lemma_display_follows_first_matching_rule(rules: Seq<ColorRule>, name: Seq<char>)
    ensures
        forall|i: int|
            0 <= i < rules.len() && regex_compiles(#[trigger] rules[i].pattern@) && regex_matches(
                rules[i].pattern@,
                name,
            ) && (forall|j: int|
                0 <= j < i ==> !(regex_compiles(#[trigger] rules[j].pattern@) && regex_matches(
                    rules[j].pattern@,
                    name,
                ))) ==> display_of(rules, name) == rules[i].ansi@ + name + "\x1b[0m"@,
        (forall|j: int|
            0 <= j < rules.len() ==> !(regex_compiles(#[trigger] rules[j].pattern@)
                && regex_matches(rules[j].pattern@, name))) ==> display_of(rules, name) == name,
{
    let r = lemma_first_hit_color(rules, name);
    assert forall|i: int|
        0 <= i < rules.len() && regex_compiles(#[trigger] rules[i].pattern@) && regex_matches(
            rules[i].pattern@,
            name,
        ) && (forall|j: int|
            0 <= j < i ==> !(regex_compiles(#[trigger] rules[j].pattern@) && regex_matches(
                rules[j].pattern@,
                name,
            ))) implies display_of(rules, name) == rules[i].ansi@ + name + "\x1b[0m"@ by {
        assert(color_rule_hits(rules[i], name));
        match r {
            Some((i0, k)) => {
                if i0 < i {
                    assert(color_rule_hits(rules[i0], name));
                } else if i < i0 {
                    assert(!color_rule_hits(rules[i], name));
                }
            },
            None => {
                assert(!color_rule_hits(rules[i], name));
            },
        }
    }
    if forall|j: int|
        0 <= j < rules.len() ==> !(regex_compiles(#[trigger] rules[j].pattern@) && regex_matches(
            rules[j].pattern@,
            name,
        )) {
        match r {
            Some((i0, k)) => {
                assert(color_rule_hits(rules[i0], name));
            },
            None => {},
        }
    }
}

/// The tier of a name: the priority of the first priority rule whose
/// pattern compiles and matches the name; `u32::MAX` where no such rule
/// exists.
pub proof fn lemma_tier_follows_first_matching_rule(rules: Seq<PriorityRule>, name: Seq<char>)
    ensures
        forall|i: int|
            0 <= i < rules.len() && regex_compiles(#[trigger] rules[i].pattern@) && regex_matches(
                rules[i].pattern@,
                name,
            ) && (forall|j: int|
                0 <= j < i ==> !(regex_compiles(#[trigger] rules[j].pattern@) && regex_matches(
                    rules[j].pattern@,
                    name,
                ))) ==> tier_of(rules, name) == rules[i].priority,
        (forall|j: int|
            0 <= j < rules.len() ==> !(regex_compiles(#[trigger] rules[j].pattern@)
                && regex_matches(rules[j].pattern@, name))) ==> tier_of(rules, name) == u32::MAX,
{
    let r = lemma_first_hit_priority(rules, name);
    assert forall|i: int|
        0 <= i < rules.len() && regex_compiles(#[trigger] rules[i].pattern@) && regex_matches(
            rules[i].pattern@,
            name,
        ) && (forall|j: int|
            0 <= j < i ==> !(regex_compiles(#[trigger] rules[j].pattern@) && regex_matches(
                rules[j].pattern@,
                name,
            ))) implies tier_of(rules, name) == rules[i].priority by {
        assert(priority_rule_hits(rules[i], name));
        match r {
            Some((i0, k)) => {
                if i0 < i {
                    assert(priority_rule_hits(rules[i0], name));
                } else if i < i0 {
                    assert(!priority_rule_hits(rules[i], name));
                }
            },
            None => {
                assert(!priority_rule_hits(rules[i], name));
            },
        }
    }
    if forall|j: int|
        0 <= j < rules.len() ==> !(regex_compiles(#[trigger] rules[j].pattern@) && regex_matches(
            rules[j].pattern@,
            name,
        )) {
        match r {
            Some((i0, k)) => {
                assert(priority_rule_hits(rules[i0], name));
            },
            None => {},
        }
    }
}

} // verus!

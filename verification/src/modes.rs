//! The decisions of the context and namespace modes: what `--current`
//! prints, how a given value is resolved, which previous value is
//! remembered, which file is switched, and the lines that are printed.
use crate::error::{Error, SetContextError};
use crate::kubeconfig::{
    find_config_with_context, find_context, has_context, named, Kubeconfig, NamedContext,
};
use crate::search::first_where;
use crate::previous::{slot_label, stored, Slot};
use crate::text::{
    has_prefix, is_white_space, join, joined, lemma_trim_of_untrimmed, opt_view, replace_char,
    replaced, same_text, starts_with, trim, trimmed, views,
};
use vstd::prelude::*;
use vstd::string::StringExecFns;

verus! {

/// What stands for the current context where none is set.
pub open spec fn no_current_context() -> Seq<char> {
    "No current context set"@
}

/// The name of the current context of `config`, or `no_current_context()`.
pub open spec fn current_context_name(config: Kubeconfig) -> Seq<char> {
    match config.current_context {
        Some(c) => c@,
        None => no_current_context(),
    }
}

/// The namespace set on the first context of `contexts` called `ctx`.
pub open spec fn namespace_in(contexts: Seq<NamedContext>, ctx: Seq<char>) -> Option<Seq<char>> {
    match first_where(contexts, named(ctx)) {
        Some(i) => match contexts[i].context {
            Some(c) => match c.namespace {
                Some(n) => Some(n@),
                None => None,
            },
            None => None,
        },
        None => None,
    }
}

/// The namespace of the context `ctx` in `config`, if it sets one.
pub fn current_namespace_for(config: &Kubeconfig, ctx: &str) -> (r: Option<String>)
    ensures
        opt_view(r) == namespace_in(config.contexts@, ctx@),
{
    match find_context(config, ctx) {
        Some(i) => match &config.contexts[i].context {
            Some(c) => match &c.namespace {
                Some(n) => Some(n.clone()),
                None => None,
            },
            None => None,
        },
        None => None,
    }
}

/// What `--current` prints in the context modes.
pub fn current_context_line(config: &Kubeconfig) -> (r: String)
    ensures
        r@ == current_context_name(*config),
{
    match &config.current_context {
        Some(c) => c.clone(),
        None => String::from_str("No current context set"),
    }
}

/// What `--current` prints in the namespace modes: the namespace of the
/// current context, or `default`.
pub fn current_namespace_line(config: &Kubeconfig) -> (r: String)
    ensures
        r@ == match namespace_in(config.contexts@, current_context_name(*config)) {
            Some(n) => n,
            None => "default"@,
        },
{
    let ctx = current_context_line(config);
    match current_namespace_for(config, ctx.as_str()) {
        Some(n) => n,
        None => String::from_str("default"),
    }
}

/// The names of the contexts of `config`, in order.
pub fn context_names(config: &Kubeconfig) -> (r: Vec<String>)
    ensures
        views(r@) == config.contexts@.map_values(|c: NamedContext| c.name@),
{
    let mut r: Vec<String> = Vec::new();
    let mut i: usize = 0;
    while i < config.contexts.len()
        invariant
            i <= config.contexts@.len(),
            views(r@) == config.contexts@.take(i as int).map_values(|c: NamedContext| c.name@),
        decreases config.contexts.len() - i,
    {
        let ghost before = r@;
        r.push(config.contexts[i].name.clone());
        assert(views(r@) =~= views(before).push(config.contexts@[i as int].name@));
        assert(config.contexts@.take(i + 1).map_values(|c: NamedContext| c.name@)
            =~= config.contexts@.take(i as int).map_values(|c: NamedContext| c.name@).push(
            config.contexts@[i as int].name@,
        ));
        i = i + 1;
    }
    assert(config.contexts@.take(config.contexts@.len() as int) == config.contexts@);
    r
}

/// Where the value of a mode comes from.
#[derive(Debug, PartialEq, Eq)]
pub enum Request {
    /// The value given, without surrounding whitespace.
    Value(String),
    /// The value remembered in the slot (the value given was `-`).
    Previous(Slot),
    /// No value was given: the user picks one.
    Select,
}

/// Resolves the value given to a mode: `-` (with any surrounding
/// whitespace) asks for the value remembered in `slot`, any other value
/// stands for itself without surrounding whitespace, and no value asks the
/// user to pick one.
pub fn resolve(args_value: Option<String>, slot: Slot) -> (r: Request)
    ensures
        match args_value {
            None => r is Select,
            Some(v) => if trim(v@) == "-"@ {
                r == Request::Previous(slot)
            } else {
                r matches Request::Value(x) && x@ == trim(v@)
            },
        },
{
    match args_value {
        None => Request::Select,
        Some(v) => {
            let t = trimmed(v.as_str());
            if same_text(t.as_str(), "-") {
                Request::Previous(slot)
            } else {
                Request::Value(t)
            }
        },
    }
}

/// The remembered value that a `-` stands for; where the slot holds
/// nothing, the error names the slot.
pub fn resolve_previous(slot: Slot, stored: Option<String>) -> (r: Result<String, Error>)
    ensures
        match stored {
            Some(v) => r matches Ok(x) && x@ == v@,
            None => r matches Err(Error::NoItemSelected { prompt }) && prompt@ == slot_label(slot),
        },
{
    match stored {
        Some(v) => Ok(v),
        None => Err(Error::NoItemSelected { prompt: slot.label() }),
    }
}

/// The value the user picked, or the error that names what was asked for.
pub fn require_choice(selected: Option<String>, prompt: &'static str) -> (r: Result<String, Error>)
    ensures
        match selected {
            Some(v) => r matches Ok(x) && x@ == v@,
            None => r matches Err(Error::NoItemSelected { prompt: p }) && p == prompt,
        },
{
    match selected {
        Some(v) => Ok(v),
        None => Err(Error::NoItemSelected { prompt }),
    }
}

/// The value to remember before switching from `current` to `chosen`: the
/// current one, where there is one and it differs from the chosen one.
pub open spec fn recorded(current: Option<Seq<char>>, chosen: Seq<char>) -> Option<Seq<char>> {
    match current {
        Some(c) => if c != chosen {
            Some(c)
        } else {
            None
        },
        None => None,
    }
}

/// The value to remember before switching from `current` to `chosen`.
pub fn previous_to_record(current: &Option<String>, chosen: &str) -> (r: Option<String>)
    ensures
        opt_view(r) == recorded(opt_view(*current), chosen@),
{
    match current {
        Some(c) => if same_text(c.as_str(), chosen) {
            None
        } else {
            Some(c.clone())
        },
        None => None,
    }
}

/// Which context of `config` is written to a session kubeconfig for `ctx`:
/// the first one called `ctx`, or the error that names `ctx`.
pub fn context_to_write(ctx: &str, config: &Kubeconfig) -> (r: Result<usize, SetContextError>)
    ensures
        match first_where(config.contexts@, named(ctx@)) {
            Some(i) => r matches Ok(j) && j == i,
            None => r matches Err(SetContextError::KubeContextNotFound { ctx: c }) && c@ == ctx@,
        },
{
    match find_context(config, ctx) {
        Some(i) => Ok(i),
        None => Err(SetContextError::KubeContextNotFound { ctx: String::from_str(ctx) }),
    }
}

/// The name under `dest` of the session kubeconfig written as `file`: with
/// every `:` turned into `_`.
pub open spec fn session_file(file: Seq<char>) -> Seq<char> {
    replace_char(file, ':', '_')
}

/// The line printed after switching a session: the session kubeconfig,
/// then the kubeconfig it was made from.
pub fn session_line(dest: &str, file: &str, kubeconfig: &str) -> (r: String)
    ensures
        r@ == dest@ + "/"@ + session_file(file@) + ":"@ + kubeconfig@,
{
    let mut r = String::from_str(dest);
    r.append("/");
    let f = replaced(file, ':', '_');
    r.append(f.as_str());
    r.append(":");
    r.append(kubeconfig);
    r
}

/// The line printed after switching the default context: the kubeconfig
/// file that was changed, then the kubeconfig.
pub fn target_line(target: &str, kubeconfig: &str) -> (r: String)
    ensures
        r@ == target@ + ":"@ + kubeconfig@,
{
    let mut r = String::from_str(target);
    r.append(":");
    r.append(kubeconfig);
    r
}

/// Whether a name starts with `prefix`.
pub open spec fn prefixed_by(prefix: Seq<char>) -> spec_fn(Seq<char>) -> bool {
    |n: Seq<char>| has_prefix(n, prefix)
}

/// The names that start with `prefix`, in their order.
pub fn completion_candidates(names: &Vec<String>, prefix: &str) -> (r: Vec<String>)
    ensures
        views(r@) == views(names@).filter(prefixed_by(prefix@)),
{
    let mut r: Vec<String> = Vec::new();
    let mut i: usize = 0;
    while i < names.len()
        invariant
            i <= names@.len(),
            views(r@) == views(names@).take(i as int).filter(prefixed_by(prefix@)),
        decreases names.len() - i,
    {
        let ghost before = r@;
        assert(views(names@).take(i + 1).drop_last() =~= views(names@).take(i as int));
        assert(views(names@).take(i + 1).last() == names@[i as int]@);
        reveal_with_fuel(Seq::filter, 1);
        if starts_with(names[i].as_str(), prefix) {
            r.push(names[i].clone());
            assert(views(r@) =~= views(before).push(names@[i as int]@));
        }
        i = i + 1;
    }
    assert(views(names@).take(names@.len() as int) =~= views(names@));
    r
}

/// What completion prints: the names that start with `prefix`, separated
/// by spaces.
pub fn completion_line(names: &Vec<String>, prefix: &str) -> (r: String)
    ensures
        r@ == join(views(names@).filter(prefixed_by(prefix@)), " "@),
{
    let candidates = completion_candidates(names, prefix);
    joined(&candidates, " ")
}

/// Every completion candidate starts with the prefix, every name that
/// starts with it is a candidate, and with an empty prefix every name is.
pub proof fn lemma_completion_candidates(names: Seq<Seq<char>>, prefix: Seq<char>)
    ensures
        forall|i: int|
            0 <= i < names.filter(prefixed_by(prefix)).len() ==> has_prefix(
                #[trigger] names.filter(prefixed_by(prefix))[i],
                prefix,
            ),
        forall|i: int|
            0 <= i < names.len() && has_prefix(names[i], prefix) ==> names.filter(
                prefixed_by(prefix),
            ).contains(#[trigger] names[i]),
        prefix.len() == 0 ==> names.filter(prefixed_by(prefix)) == names,
    decreases names.len(),
{
    broadcast use vstd::seq_lib::group_filter_ensures;

    assert forall|i: int|
        0 <= i < names.filter(prefixed_by(prefix)).len() implies has_prefix(
        #[trigger] names.filter(prefixed_by(prefix))[i],
        prefix,
    ) by {
        names.lemma_filter_pred(prefixed_by(prefix), i);
    }
    assert forall|i: int| 0 <= i < names.len() && has_prefix(names[i], prefix) implies names.filter(
        prefixed_by(prefix),
    ).contains(#[trigger] names[i]) by {
        names.lemma_filter_contains(prefixed_by(prefix), i);
    }
    if prefix.len() == 0 && names.len() > 0 {
        lemma_completion_candidates(names.drop_last(), prefix);
        reveal_with_fuel(Seq::filter, 1);
        assert(has_prefix(names.last(), prefix)) by {
            assert(names.last().subrange(0, 0) =~= prefix);
        }
        assert(names.drop_last().push(names.last()) =~= names);
    }
    if prefix.len() == 0 && names.len() == 0 {
        reveal_with_fuel(Seq::filter, 1);
    }
}

/// A session kubeconfig name holds no `:`, and is as long as the name it
/// was made from.
pub proof fn lemma_session_file_has_no_colon(file: Seq<char>)
    ensures
        !session_file(file).contains(':'),
        session_file(file).len() == file.len(),
        forall|k: int|
            0 <= k < file.len() ==> #[trigger] session_file(file)[k] == if file[k] == ':' {
                '_'
            } else {
                file[k]
            },
        !file.contains(':') ==> session_file(file) == file,
{
    if !file.contains(':') {
        assert(session_file(file) =~= file);
    }
    if session_file(file).contains(':') {
        let k = choose|k: int| 0 <= k < session_file(file).len() && session_file(file)[k] == ':';
        assert(session_file(file)[k] == (if file[k] == ':' { '_' } else { file[k] }));
    }
}

/// Switching from `a` to `b` remembers `a`; where `a` has no whitespace at
/// either end, the remembered value reads back as `a`, and `-` (which is its
/// own trim) asks for that remembered value: so `-` switches back to `a`.
pub proof fn lemma_dash_switches_back(a: Seq<char>, b: Seq<char>)
    requires
        a != b,
        a.len() > 0,
        !is_white_space(a[0]),
        !is_white_space(a.last()),
    ensures
        recorded(Some(a), b) == Some(a),
        stored(a) == Some(a),
        trim("-"@) == "-"@,
{
    lemma_trim_of_untrimmed(a);
    reveal_strlit("-");
    lemma_trim_of_untrimmed("-"@);
}

/// The four ways of switching.
#[derive(Clone, Copy, Debug, PartialEq, Eq, Structural)]
pub enum Mode {
    /// The current context of the kubeconfig file that holds it.
    DefaultContext,
    /// The context of this shell session.
    Context,
    /// The namespace of this shell session.
    Namespace,
    /// The namespace of the current context in the kubeconfig file that holds it.
    DefaultNamespace,
}

/// The slot in which a mode remembers the value it switches away from.
pub open spec fn mode_slot(mode: Mode) -> Slot {
    match mode {
        Mode::DefaultContext => Slot::GlobalContext,
        Mode::Context => Slot::SessionContext,
        Mode::Namespace => Slot::SessionNamespace,
        Mode::DefaultNamespace => Slot::GlobalNamespace,
    }
}

/// Whether a mode switches a namespace (rather than a context).
pub open spec fn switches_namespace(mode: Mode) -> bool {
    mode == Mode::Namespace || mode == Mode::DefaultNamespace
}

impl Mode {
    pub fn slot(self) -> (s: Slot)
        ensures
            s == mode_slot(self),
    {
        match self {
            Mode::DefaultContext => Slot::GlobalContext,
            Mode::Context => Slot::SessionContext,
            Mode::Namespace => Slot::SessionNamespace,
            Mode::DefaultNamespace => Slot::GlobalNamespace,
        }
    }
}

/// What a mode was asked on the command line.
#[derive(Debug, Clone)]
pub struct ModeArgs {
    /// Print the current value instead of switching.
    pub current: bool,
    /// The value to switch to; `-` for the previous one.
    pub value: Option<String>,
}

/// The kubeconfigs a mode reads.
#[derive(Debug, Clone)]
pub struct Kubeconfigs {
    /// The kubeconfig of this shell session.
    pub session: Kubeconfig,
    /// All kubeconfig files merged.
    pub merged: Kubeconfig,
    /// The kubeconfig files, in the order they are searched.
    pub files: Vec<Kubeconfig>,
}

/// Where a mode stands.
#[derive(Debug)]
pub enum Progress {
    /// Print this line; the mode is done.
    Print(String),
    /// Read the slot and hand its value to `after_previous`.
    ReadPrevious(Slot),
    /// Let the user pick one of these contexts and hand the pick to `after_choice`.
    ChooseContext(Vec<String>),
    /// Let the user pick a namespace of the cluster and hand the pick to `after_choice`.
    ChooseNamespace,
    /// The value to switch to is known: carry out `plan` for it.
    Chosen(String),
    /// The mode stops with this error.
    Fail(Error),
}

/// The first step of a mode: with `--current`, the line to print; else the
/// value given, or where it must come from.
pub fn start(mode: Mode, args: ModeArgs, configs: &Kubeconfigs) -> (p: Progress)
    ensures
        args.current ==> (p matches Progress::Print(line) && line@ == match mode {
            Mode::DefaultContext => current_context_name(configs.merged),
            Mode::Context => current_context_name(configs.session),
            _ => match namespace_in(
                configs.session.contexts@,
                current_context_name(configs.session),
            ) {
                Some(n) => n,
                None => "default"@,
            },
        }),
        !args.current ==> match args.value {
            None => if switches_namespace(mode) {
                p is ChooseNamespace
            } else {
                p matches Progress::ChooseContext(names) && views(names@)
                    == configs.merged.contexts@.map_values(|c: NamedContext| c.name@)
            },
            Some(v) => if trim(v@) == "-"@ {
                p == Progress::ReadPrevious(mode_slot(mode))
            } else {
                p matches Progress::Chosen(x) && x@ == trim(v@)
            },
        },
        !args.current && args.value is None ==> (p is ChooseNamespace <==> (mode == Mode::Namespace
            || mode == Mode::DefaultNamespace)),
        !args.current && args.value is None ==> (p is ChooseContext <==> (mode
            == Mode::DefaultContext || mode == Mode::Context)),
{
    if args.current {
        let line = match mode {
            Mode::DefaultContext => current_context_line(&configs.merged),
            Mode::Context => current_context_line(&configs.session),
            Mode::Namespace => current_namespace_line(&configs.session),
            Mode::DefaultNamespace => current_namespace_line(&configs.session),
        };
        return Progress::Print(line);
    }
    match resolve(args.value, mode.slot()) {
        Request::Value(v) => Progress::Chosen(v),
        Request::Previous(slot) => Progress::ReadPrevious(slot),
        Request::Select => match mode {
            Mode::DefaultContext | Mode::Context => Progress::ChooseContext(
                context_names(&configs.merged),
            ),
            Mode::Namespace | Mode::DefaultNamespace => Progress::ChooseNamespace,
        },
    }
}

/// The step after the slot was read: its value, or the error that names it.
pub fn after_previous(slot: Slot, stored: Option<String>) -> (p: Progress)
    ensures
        match stored {
            Some(v) => p matches Progress::Chosen(x) && x@ == v@,
            None => p matches Progress::Fail(Error::NoItemSelected { prompt }) && prompt@
                == slot_label(slot),
        },
{
    match resolve_previous(slot, stored) {
        Ok(v) => Progress::Chosen(v),
        Err(e) => Progress::Fail(e),
    }
}

/// What is asked for when the user picks.
pub open spec fn choice_prompt(mode: Mode) -> Seq<char> {
    if switches_namespace(mode) {
        "namespace"@
    } else {
        "context"@
    }
}

/// The step after the user picked: the pick, or the error that says
/// nothing was picked.
pub fn after_choice(mode: Mode, picked: Option<String>) -> (p: Progress)
    ensures
        match picked {
            Some(v) => p matches Progress::Chosen(x) && x@ == v@,
            None => p matches Progress::Fail(Error::NoItemSelected { prompt }) && prompt@
                == choice_prompt(mode),
        },
        picked is None ==> (p matches Progress::Fail(Error::NoItemSelected { prompt }) && prompt@
            == if mode == Mode::Namespace || mode == Mode::DefaultNamespace {
            "namespace"@
        } else {
            "context"@
        }),
{
    let prompt = match mode {
        Mode::DefaultContext | Mode::Context => "context",
        Mode::Namespace | Mode::DefaultNamespace => "namespace",
    };
    match require_choice(picked, prompt) {
        Ok(v) => Progress::Chosen(v),
        Err(e) => Progress::Fail(e),
    }
}

/// What a mode does once the value to switch to is known, in this order:
/// remember a value in a slot; make a context the current one of a
/// kubeconfig file and print that file's line; set a context's namespace in
/// a kubeconfig file; write the session kubeconfig for a context of the
/// session kubeconfig, with a namespace, and print the session line. A
/// namespace mode always writes the session kubeconfig: where the current
/// context is not one of the session's, `session` is `None` and the mode
/// cannot go on.
#[derive(Debug)]
pub struct Plan {
    pub remember: Option<(Slot, String)>,
    pub default_context: Option<(String, usize)>,
    pub default_namespace: Option<(String, String, usize)>,
    pub session: Option<(usize, Option<String>)>,
}

pub open spec fn remember_view(r: Option<(Slot, String)>) -> Option<(Slot, Seq<char>)> {
    match r {
        Some((s, v)) => Some((s, v@)),
        None => None,
    }
}

/// The value a mode remembers, and in which slot.
pub open spec fn planned_remember(mode: Mode, configs: Kubeconfigs, value: Seq<char>) -> Option<
    (Slot, Seq<char>),
> {
    let cur = current_context_name(configs.session);
    let before = match mode {
        Mode::DefaultContext => if first_where(configs.files@, has_context(value)) is Some {
            recorded(opt_view(configs.merged.current_context), value)
        } else {
            None
        },
        Mode::Context => recorded(opt_view(configs.session.current_context), value),
        Mode::Namespace => recorded(namespace_in(configs.session.contexts@, cur), value),
        Mode::DefaultNamespace => if first_where(configs.files@, has_context(cur)) is Some {
            recorded(namespace_in(configs.merged.contexts@, cur), value)
        } else {
            None
        },
    };
    match before {
        Some(b) => Some((mode_slot(mode), b)),
        None => None,
    }
}

/// What a mode does to switch to `value`.
pub fn plan(mode: Mode, configs: &Kubeconfigs, value: &str) -> (p: Plan)
    ensures
        remember_view(p.remember) == planned_remember(mode, *configs, value@),
        p.remember matches Some((_, b)) ==> b@ != value@,
        mode == Mode::Context ==> (p.remember is Some <==> (configs.session.current_context matches Some(
            c,
        ) && c@ != value@)),
        mode == Mode::Context ==> (p.remember matches Some((s, b)) ==> (s == Slot::SessionContext
            && (configs.session.current_context matches Some(c) && b@ == c@))),
        match p.default_context {
            Some((ctx, file)) => mode == Mode::DefaultContext && ctx@ == value@ && first_where(
                configs.files@,
                has_context(value@),
            ) == Some(file as int),
            None => mode == Mode::DefaultContext ==> first_where(
                configs.files@,
                has_context(value@),
            ) is None,
        },
        match p.default_namespace {
            Some((ns, ctx, file)) => mode == Mode::DefaultNamespace && ns@ == value@ && ctx@
                == current_context_name(configs.session) && first_where(
                configs.files@,
                has_context(current_context_name(configs.session)),
            ) == Some(file as int),
            None => mode == Mode::DefaultNamespace ==> first_where(
                configs.files@,
                has_context(current_context_name(configs.session)),
            ) is None,
        },
        match p.session {
            Some((i, ns)) => match mode {
                Mode::DefaultContext => false,
                Mode::Context => first_where(configs.session.contexts@, named(value@)) == Some(
                    i as int,
                ) && ns is None,
                _ => first_where(
                    configs.session.contexts@,
                    named(current_context_name(configs.session)),
                ) == Some(i as int) && opt_view(ns) == Some(value@),
            },
            None => match mode {
                Mode::DefaultContext => true,
                Mode::Context => first_where(configs.session.contexts@, named(value@)) is None,
                _ => first_where(
                    configs.session.contexts@,
                    named(current_context_name(configs.session)),
                ) is None,
            },
        },
{
    match mode {
        Mode::DefaultContext => {
            match find_config_with_context(&configs.files, value) {
                Some(t) => {
                    let remember = match previous_to_record(&configs.merged.current_context, value) {
                        Some(v) => Some((Slot::GlobalContext, v)),
                        None => None,
                    };
                    Plan {
                        remember,
                        default_context: Some((String::from_str(value), t)),
                        default_namespace: None,
                        session: None,
                    }
                },
                None => Plan {
                    remember: None,
                    default_context: None,
                    default_namespace: None,
                    session: None,
                },
            }
        },
        Mode::Context => {
            let remember = match previous_to_record(&configs.session.current_context, value) {
                Some(v) => Some((Slot::SessionContext, v)),
                None => None,
            };
            let session = match context_to_write(value, &configs.session) {
                Ok(i) => Some((i, None)),
                Err(_) => None,
            };
            Plan { remember, default_context: None, default_namespace: None, session }
        },
        Mode::Namespace => {
            let cur = current_context_line(&configs.session);
            let current_ns = current_namespace_for(&configs.session, cur.as_str());
            let remember = match previous_to_record(&current_ns, value) {
                Some(v) => Some((Slot::SessionNamespace, v)),
                None => None,
            };
            let session = match find_context(&configs.session, cur.as_str()) {
                Some(i) => Some((i, Some(String::from_str(value)))),
                None => None,
            };
            Plan { remember, default_context: None, default_namespace: None, session }
        },
        Mode::DefaultNamespace => {
            let cur = current_context_line(&configs.session);
            let (remember, default_namespace) = match find_config_with_context(
                &configs.files,
                cur.as_str(),
            ) {
                Some(t) => {
                    let current_ns = current_namespace_for(&configs.merged, cur.as_str());
                    let remember = match previous_to_record(&current_ns, value) {
                        Some(v) => Some((Slot::GlobalNamespace, v)),
                        None => None,
                    };
                    (remember, Some((String::from_str(value), cur.clone(), t)))
                },
                None => (None, None),
            };
            let session = match find_context(&configs.session, cur.as_str()) {
                Some(i) => Some((i, Some(String::from_str(value)))),
                None => None,
            };
            Plan { remember, default_context: None, default_namespace, session }
        },
    }
}

/// The value a plan remembers is never the value being switched to, it
/// goes to the slot of the mode, and switching the session context
/// remembers the session's current context exactly where there is one and
/// it differs from the new one.
pub proof fn lemma_plan_remembers_what_it_leaves(mode: Mode, configs: Kubeconfigs, value: Seq<char>)
    ensures
        forall|current: Option<Seq<char>>|
            #[trigger] recorded(current, value) == if current matches Some(c) && c != value {
                current
            } else {
                None
            },
        planned_remember(mode, configs, value) matches Some((s, b)) ==> b != value && s
            == match mode {
            Mode::DefaultContext => Slot::GlobalContext,
            Mode::Context => Slot::SessionContext,
            Mode::Namespace => Slot::SessionNamespace,
            Mode::DefaultNamespace => Slot::GlobalNamespace,
        },
        mode == Mode::Context ==> planned_remember(mode, configs, value) == match configs.session.current_context {
            Some(c) => if c@ != value {
                Some((Slot::SessionContext, c@))
            } else {
                None
            },
            None => None,
        },
{
}

/// Both namespace modes let the user pick among namespaces, and ask for a
/// namespace; both context modes pick among contexts, and ask for a context.
pub proof fn lemma_namespace_modes_pick_namespaces(mode: Mode)
    ensures
        switches_namespace(mode) <==> (mode == Mode::Namespace || mode == Mode::DefaultNamespace),
        choice_prompt(mode) == if mode == Mode::Namespace || mode == Mode::DefaultNamespace {
            "namespace"@
        } else {
            "context"@
        },
{
}

} // verus!

use kubesess::error::Error;
use kubesess::kubeconfig::{Context, Kubeconfig, NamedContext};
use kubesess::modes::{after_choice, after_previous, plan, start, Kubeconfigs, Mode, ModeArgs, Progress};
use kubesess::previous::Slot;

fn named(name: &str, ns: Option<&str>) -> NamedContext {
    NamedContext { name: name.to_string(), context: Some(Context { namespace: ns.map(|s| s.to_string()) }) }
}

fn kc(current: Option<&str>, contexts: Vec<NamedContext>) -> Kubeconfig {
    Kubeconfig { current_context: current.map(|s| s.to_string()), contexts }
}

fn configs() -> Kubeconfigs {
    Kubeconfigs {
        session: kc(Some("dev"), vec![named("dev", Some("team")), named("prod", None)]),
        merged: kc(Some("prod"), vec![named("dev", Some("global-team")), named("prod", None), named("stage", None)]),
        files: vec![
            kc(None, vec![named("prod", None)]),
            kc(None, vec![named("dev", None), named("stage", None)]),
        ],
    }
}

fn args(current: bool, value: Option<&str>) -> ModeArgs {
    ModeArgs { current, value: value.map(|s| s.to_string()) }
}

#[test]
fn current_prints_the_current_value() {
    let c = configs();
    assert!(matches!(start(Mode::DefaultContext, args(true, None), &c), Progress::Print(l) if l == "prod"));
    assert!(matches!(start(Mode::Context, args(true, None), &c), Progress::Print(l) if l == "dev"));
    assert!(matches!(start(Mode::Namespace, args(true, None), &c), Progress::Print(l) if l == "team"));
    assert!(matches!(start(Mode::DefaultNamespace, args(true, Some("x")), &c), Progress::Print(l) if l == "team"));
}

#[test]
fn start_resolves_the_value() {
    let c = configs();
    assert!(matches!(start(Mode::Context, args(false, Some(" - ")), &c), Progress::ReadPrevious(Slot::SessionContext)));
    assert!(matches!(start(Mode::DefaultNamespace, args(false, Some("-")), &c), Progress::ReadPrevious(Slot::GlobalNamespace)));
    assert!(matches!(start(Mode::Namespace, args(false, Some(" kube-system ")), &c), Progress::Chosen(v) if v == "kube-system"));
    assert!(matches!(start(Mode::Namespace, args(false, None), &c), Progress::ChooseNamespace));
    match start(Mode::Context, args(false, None), &c) {
        Progress::ChooseContext(names) => assert_eq!(names, vec!["dev", "prod", "stage"]),
        _ => panic!("expected a choice of contexts"),
    }
}

#[test]
fn previous_and_choice_steps() {
    assert!(matches!(after_previous(Slot::GlobalContext, Some("a".to_string())), Progress::Chosen(v) if v == "a"));
    assert!(matches!(after_previous(Slot::GlobalContext, None), Progress::Fail(Error::NoItemSelected { prompt: "previous global context" })));
    assert!(matches!(after_choice(Mode::Namespace, None), Progress::Fail(Error::NoItemSelected { prompt: "namespace" })));
    assert!(matches!(after_choice(Mode::DefaultContext, None), Progress::Fail(Error::NoItemSelected { prompt: "context" })));
    assert!(matches!(after_choice(Mode::Context, Some("x".to_string())), Progress::Chosen(v) if v == "x"));
}

#[test]
fn plan_default_context() {
    let c = configs();
    let p = plan(Mode::DefaultContext, &c, "stage");
    assert_eq!(p.remember, Some((Slot::GlobalContext, "prod".to_string())));
    assert_eq!(p.default_context, Some(("stage".to_string(), 1)));
    assert!(p.default_namespace.is_none());
    assert!(p.session.is_none());
    let p = plan(Mode::DefaultContext, &c, "prod");
    assert_eq!(p.remember, None);
    assert_eq!(p.default_context, Some(("prod".to_string(), 0)));
    let p = plan(Mode::DefaultContext, &c, "nowhere");
    assert!(p.remember.is_none() && p.default_context.is_none());
}

#[test]
fn plan_context() {
    let c = configs();
    let p = plan(Mode::Context, &c, "prod");
    assert_eq!(p.remember, Some((Slot::SessionContext, "dev".to_string())));
    assert_eq!(p.session, Some((1, None)));
    let p = plan(Mode::Context, &c, "missing");
    assert_eq!(p.remember, Some((Slot::SessionContext, "dev".to_string())));
    assert_eq!(p.session, None);
}

#[test]
fn plan_namespaces() {
    let c = configs();
    let p = plan(Mode::Namespace, &c, "other");
    assert_eq!(p.remember, Some((Slot::SessionNamespace, "team".to_string())));
    assert_eq!(p.session, Some((0, Some("other".to_string()))));
    let p = plan(Mode::Namespace, &c, "team");
    assert_eq!(p.remember, None);
    let p = plan(Mode::DefaultNamespace, &c, "other");
    assert_eq!(p.remember, Some((Slot::GlobalNamespace, "global-team".to_string())));
    assert_eq!(p.default_namespace, Some(("other".to_string(), "dev".to_string(), 1)));
    assert_eq!(p.session, Some((0, Some("other".to_string()))));
}

#[test]
fn namespace_plan_without_current_context_in_session() {
    let mut c = configs();
    c.session.current_context = None;
    let p = plan(Mode::Namespace, &c, "other");
    assert!(p.session.is_none());
    assert!(p.remember.is_none());
    let p = plan(Mode::DefaultNamespace, &c, "other");
    assert!(p.session.is_none() && p.default_namespace.is_none());
}

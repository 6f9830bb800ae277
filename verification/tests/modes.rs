use kubesess::error::{Error, SetContextError};
use kubesess::kubeconfig::{find_config_with_context, find_context, Context, Kubeconfig, NamedContext};
use kubesess::modes::{
    completion_candidates, completion_line, context_names, context_to_write, current_context_line,
    current_namespace_for, current_namespace_line, previous_to_record, require_choice, resolve,
    resolve_previous, session_line, target_line, Request,
};
use kubesess::previous::Slot;

fn ctx(name: &str, ns: Option<&str>) -> NamedContext {
    NamedContext { name: name.to_string(), context: Some(Context { namespace: ns.map(|s| s.to_string()) }) }
}

fn config(current: Option<&str>) -> Kubeconfig {
    Kubeconfig {
        current_context: current.map(|s| s.to_string()),
        contexts: vec![
            ctx("dev", Some("team")),
            NamedContext { name: "bare".to_string(), context: None },
            ctx("prod", None),
            ctx("dev", Some("shadowed")),
        ],
    }
}

#[test]
fn resolve_requests() {
    assert_eq!(resolve(None, Slot::SessionContext), Request::Select);
    assert_eq!(resolve(Some(" - ".to_string()), Slot::GlobalContext), Request::Previous(Slot::GlobalContext));
    assert_eq!(resolve(Some(" prod\n".to_string()), Slot::SessionContext), Request::Value("prod".to_string()));
    assert_eq!(resolve(Some("--".to_string()), Slot::SessionContext), Request::Value("--".to_string()));
}

#[test]
fn resolve_previous_value_or_error() {
    assert_eq!(resolve_previous(Slot::SessionNamespace, Some("ns".to_string())).unwrap(), "ns");
    match resolve_previous(Slot::SessionNamespace, None) {
        Err(Error::NoItemSelected { prompt }) => assert_eq!(prompt, "previous session namespace"),
        _ => panic!("expected an error"),
    }
    match require_choice(None, "context") {
        Err(Error::NoItemSelected { prompt }) => assert_eq!(prompt, "context"),
        _ => panic!("expected an error"),
    }
    assert_eq!(require_choice(Some("x".to_string()), "context").unwrap(), "x");
}

#[test]
fn previous_is_recorded_only_when_it_changes() {
    assert_eq!(previous_to_record(&Some("a".to_string()), "b"), Some("a".to_string()));
    assert_eq!(previous_to_record(&Some("a".to_string()), "a"), None);
    assert_eq!(previous_to_record(&None, "a"), None);
}

#[test]
fn namespaces_of_contexts() {
    let c = config(Some("dev"));
    assert_eq!(current_namespace_for(&c, "dev"), Some("team".to_string()));
    assert_eq!(current_namespace_for(&c, "prod"), None);
    assert_eq!(current_namespace_for(&c, "bare"), None);
    assert_eq!(current_namespace_for(&c, "missing"), None);
    assert_eq!(current_namespace_line(&c), "team");
    assert_eq!(current_namespace_line(&config(Some("prod"))), "default");
    assert_eq!(current_namespace_line(&config(None)), "default");
}

#[test]
fn current_context_lines() {
    assert_eq!(current_context_line(&config(Some("dev"))), "dev");
    assert_eq!(current_context_line(&config(None)), "No current context set");
    assert_eq!(context_names(&config(None)), vec!["dev", "bare", "prod", "dev"]);
}

#[test]
fn choosing_the_context_to_write() {
    let c = config(None);
    assert_eq!(find_context(&c, "prod"), Some(2));
    assert_eq!(context_to_write("dev", &c).unwrap(), 0);
    match context_to_write("nope", &c) {
        Err(SetContextError::KubeContextNotFound { ctx }) => assert_eq!(ctx, "nope"),
        _ => panic!("expected an error"),
    }
}

#[test]
fn finding_the_file_of_a_context() {
    let a = Kubeconfig { current_context: None, contexts: vec![ctx("a", None)] };
    let b = Kubeconfig { current_context: None, contexts: vec![ctx("b", None), ctx("c", None)] };
    let configs = vec![a, b];
    assert_eq!(find_config_with_context(&configs, "c"), Some(1));
    assert_eq!(find_config_with_context(&configs, "a"), Some(0));
    assert_eq!(find_config_with_context(&configs, "z"), None);
}

#[test]
fn completion_filters_by_prefix() {
    let names: Vec<String> = ["prod-eu", "dev", "prod-us"].iter().map(|s| s.to_string()).collect();
    assert_eq!(completion_candidates(&names, "prod"), vec!["prod-eu", "prod-us"]);
    assert_eq!(completion_candidates(&names, ""), names);
    assert_eq!(completion_line(&names, "prod"), "prod-eu prod-us");
    assert_eq!(completion_line(&names, "x"), "");
}

#[test]
fn printed_lines() {
    assert_eq!(
        session_line("/tmp/kubesess", "arn:aws:eks:ctx", "/home/u/.kube/config"),
        "/tmp/kubesess/arn_aws_eks_ctx:/home/u/.kube/config"
    );
    assert_eq!(target_line("/k/a", "/k/b"), "/k/a:/k/b");
}

#[test]
fn dash_switches_back() {
    let recorded = previous_to_record(&Some("kind-a".to_string()), "kind-b").unwrap();
    let read_back = kubesess::previous::stored_value(&recorded).unwrap();
    assert_eq!(read_back, "kind-a");
    assert_eq!(resolve(Some("-".to_string()), Slot::SessionContext), Request::Previous(Slot::SessionContext));
    assert_eq!(resolve_previous(Slot::SessionContext, Some(read_back)).unwrap(), "kind-a");
}

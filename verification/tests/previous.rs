use kubesess::previous::{dir, path, stored_value, Slot};

#[test]
fn slot_names() {
    assert_eq!(Slot::SessionContext.filename(), "session_context");
    assert_eq!(Slot::GlobalNamespace.filename(), "global_namespace");
    assert_eq!(Slot::SessionNamespace.label(), "previous session namespace");
    assert_eq!(Slot::GlobalContext.label(), "previous global context");
}

#[test]
fn slot_files_live_under_previous() {
    assert_eq!(dir("/tmp/kubesess"), "/tmp/kubesess/.previous");
    assert_eq!(path("/tmp/kubesess", Slot::SessionContext), "/tmp/kubesess/.previous/session_context");
}

#[test]
fn distinct_slots_distinct_files() {
    let slots = [Slot::SessionContext, Slot::SessionNamespace, Slot::GlobalContext, Slot::GlobalNamespace];
    for a in slots {
        for b in slots {
            assert_eq!(a == b, path("/d", a) == path("/d", b));
        }
    }
}

#[test]
fn stored_value_is_trimmed_or_nothing() {
    assert_eq!(stored_value("  kind-dev\n"), Some("kind-dev".to_string()));
    assert_eq!(stored_value(" \n"), None);
    assert_eq!(stored_value(""), None);
}

#[test]
fn stored_value_reads_back() {
    let first = stored_value("\tprod \n").unwrap();
    assert_eq!(stored_value(&first), Some(first.clone()));
    assert_eq!(stored_value("staging"), Some("staging".to_string()));
}

#[test]
fn a_slot_file_names_one_slot_and_one_directory() {
    assert_eq!(path("a", Slot::GlobalContext), path("a/", Slot::GlobalContext));
    assert_eq!(dir("a"), dir("a/"));
    assert_ne!(path("a", Slot::GlobalContext), path("a", Slot::GlobalNamespace));
    assert_ne!(path("a", Slot::SessionContext), path("b", Slot::SessionContext));
}

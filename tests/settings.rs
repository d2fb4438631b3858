use renamer::settings::{Notification, TaskType};

#[test]
fn task_names_round_trip() {
    for t in TaskType::all() {
        assert_eq!(TaskType::from_name(&t.name()), Some(t));
    }
    assert_eq!(TaskType::NexusPt.name(), "nexus_pt");
    assert_eq!(TaskType::SsPanel.name(), "ss_panel");
    assert_eq!(TaskType::from_name("v2ex"), Some(TaskType::V2ex));
    assert_eq!(TaskType::from_name("genshin"), Some(TaskType::Genshin));
    assert_eq!(TaskType::from_name("Genshin"), None);
    assert_eq!(TaskType::from_name(""), None);
}

#[test]
fn notification_defaults_empty() {
    let n = Notification::default();
    assert!(n.sender.is_empty() && n.pswd.is_empty() && n.host.is_empty());
    assert_eq!(n.port, 0);
}

use async_std::task::builder::Builder;
use async_std::tracing;

#[test]
fn builder_has_no_name_at_first() {
    let s = Builder::new().spawn(7, None);
    assert_eq!(s.name, None);
    assert_eq!(s.task_id, 7);
    assert_eq!(s.parent_task_id, 0);
    assert_eq!(Builder::default().spawn(1, None).name, None);
}

#[test]
fn builder_keeps_the_last_name() {
    let b = Builder::new().name("first".to_string()).name("second".to_string());
    let s = b.spawn(8, Some(3));
    assert_eq!(s.name, Some("second".to_string()));
    assert_eq!(s.task_id, 8);
    assert_eq!(s.parent_task_id, 3);
}

#[test]
fn hooks_can_be_called() {
    tracing::rt::machine_starting(1);
    tracing::rt::machine_scheduled_task(1, 2, true);
    tracing::rt::machine_blocked(1);
    tracing::task::spawn(2, 0, Some("name"));
    tracing::task::completed(2);
}

//! Who may write the index.
use wake::index_lock::{own_name, take, LockSlot, TakeEvent, TakeStep, RETRY_MS, WAIT_SECS};
use wake::ui::Words;

#[test]
fn a_lock_is_tried_for_kept_and_waited_for() {
    let me = own_name("app", 42);
    assert_eq!(me, "app 42");
    assert_eq!((WAIT_SECS, RETRY_MS), (60, 10));
    let mut slot = LockSlot::new();
    let mut step = |event: TakeEvent| take(&mut slot, "/i", &me, event, true);
    assert!(matches!(step(TakeEvent::Wanted { live: false }), TakeStep::Try));
    assert!(matches!(step(TakeEvent::Wanted { live: true }), TakeStep::Try));
    assert!(matches!(step(TakeEvent::HeldByApp(me.clone())), TakeStep::Retry));
    assert!(matches!(step(TakeEvent::Ours), TakeStep::Keep(0)));
}

#[test]
fn a_live_lock_is_shared_and_a_dropped_one_tried_for_anew() {
    let mut slot = LockSlot::new();
    let mut step = |event: TakeEvent| take(&mut slot, "/i", "app 1", event, true);
    assert!(matches!(step(TakeEvent::Ours), TakeStep::Keep(0)));
    assert!(matches!(step(TakeEvent::Wanted { live: true }), TakeStep::Share(0)));
    assert!(matches!(step(TakeEvent::Wanted { live: true }), TakeStep::Share(0)));
    assert!(matches!(step(TakeEvent::Wanted { live: false }), TakeStep::Try));
    assert!(matches!(step(TakeEvent::HeldByApp("app 1".to_string())), TakeStep::Retry));
    assert!(matches!(step(TakeEvent::Ours), TakeStep::Keep(1)));
    assert!(matches!(step(TakeEvent::Wanted { live: true }), TakeStep::Share(1)));
}

#[test]
fn another_holder_is_named_to_the_user() {
    let me = own_name("app", 42);
    for (event, late) in [
        (TakeEvent::HeldByApp("app 7".to_string()), true),
        (TakeEvent::TimedOut("app 7".to_string()), true),
        (TakeEvent::HeldByApp("app 7".to_string()), false),
    ] {
        match take(&mut LockSlot::new(), "/i/x.db", &me, event, late) {
            TakeStep::Refuse(Words::Filled { template, args }) => {
                assert!(template.starts_with("Wake couldn't open its index at {}"));
                assert_eq!(args, vec!["/i/x.db", "app 7"]);
            }
            _ => panic!("refused"),
        }
    }
    assert!(matches!(
        take(&mut LockSlot::new(), "/i", &me, TakeEvent::HeldByApp(me.clone()), false),
        TakeStep::Refuse(_)
    ));
}

#[test]
fn an_app_without_a_lock_still_starts() {
    let event = TakeEvent::Failed("no locks here".to_string());
    match take(&mut LockSlot::new(), "/i", "app 1", event, true) {
        TakeStep::GoWithout(line) => assert_eq!(
            line,
            "wake: index lock unavailable at /i: no locks here; continuing without it"
        ),
        _ => panic!("without"),
    }
}

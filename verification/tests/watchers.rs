use trussfs::context::{Context, WatcherKey};
use trussfs::INVALID_HANDLE;

#[test]
fn live_watcher_distinguishes_empty_from_invalid() {
    let mut ctx = Context::new();
    let key = ctx
        .watch_path(&b"/tmp".to_vec(), false)
        .expect("watching an existing directory starts the backend");
    // A live watcher with nothing pending yields a (possibly empty) list,
    // never the sentinel: absence is reserved for dead handles.
    let list = ctx.watcher_poll(key).expect("live watcher polls");
    assert_ne!(list.0, INVALID_HANDLE);
    assert!(ctx.watcher_free(key));
    // After the free the handle is dead: polling reports absence, not an
    // empty list.
    assert!(ctx.watcher_poll(key).is_none());
    assert!(!ctx.watcher_free(key));
}

#[test]
fn watcher_handles_are_generational() {
    let mut ctx = Context::new();
    let first = ctx.watch_path(&b"/tmp".to_vec(), false).expect("backend starts");
    assert!(ctx.watcher_free(first));
    let second = ctx.watch_path(&b"/tmp".to_vec(), false).expect("backend starts");
    assert_ne!(first.0, second.0);
    assert!(ctx.watcher_poll(first).is_none());
    assert!(ctx.watcher_poll(second).is_some());
    ctx.watcher_free(second);
}

#[test]
fn watcher_ops_on_invalid_handles() {
    let mut ctx = Context::new();
    assert!(ctx.watcher_poll(WatcherKey(INVALID_HANDLE)).is_none());
    assert!(ctx.watcher_poll(WatcherKey(31337)).is_none());
    assert!(ctx
        .watch_augment(WatcherKey(INVALID_HANDLE), &b"/tmp".to_vec(), false)
        .is_err());
    assert!(!ctx.watcher_free(WatcherKey(31337)));
}

#[test]
fn watch_path_failure_populates_error_slot() {
    let mut ctx = Context::new();
    let missing = b"/tmp/trussfs_definitely_absent_dir_0xv/zzz".to_vec();
    let r = ctx.watch_path(&missing, false);
    assert!(r.is_none());
    assert!(ctx.get_error().is_some());
}

#[test]
fn augmenting_a_live_watcher_succeeds() {
    let mut ctx = Context::new();
    let key = ctx.watch_path(&b"/tmp".to_vec(), false).expect("backend starts");
    ctx.watch_augment(key, &b"/".to_vec(), false)
        .expect("augmenting a live watcher with an existing path");
    assert!(ctx
        .watch_augment(key, &b"/tmp/trussfs_definitely_absent_dir_0xv".to_vec(), false)
        .is_err());
    ctx.watcher_free(key);
}

#[test]
fn unwatch_removes_one_subscription() {
    let mut w = trussfs::watcher::FileWatcher::new().expect("backend starts");
    w.watch(&b"/tmp".to_vec(), false).expect("watching an existing path");
    w.unwatch(&b"/tmp".to_vec()).expect("removing a live subscription");
    // The path is no longer watched, so a second removal fails.
    assert!(w.unwatch(&b"/tmp".to_vec()).is_err());
}

use std::time::Instant;

use stagewhisper::panels::{HostReloads, PendingRevives};

#[test]
fn a_web_view_waits_for_its_revive_once_at_a_time() {
    let mut pending = PendingRevives::new();
    assert!(pending.begin("control"));
    assert!(!pending.begin("control"));
    assert!(pending.begin("session"));
    pending.finish("control");
    assert!(pending.begin("control"));
}

#[test]
fn host_reloads_are_spaced_out_per_web_view() {
    let mut reloads = HostReloads::new();
    assert!(reloads.permit("control", 10_000));
    assert!(!reloads.permit("control", 10_000));
    assert!(reloads.permit("session", 10_000));
    assert!(reloads.permit("control", 0));
}

#[test]
fn a_repeat_reload_is_permitted_once_the_debounce_has_passed() {
    let mut reloads = HostReloads::new();
    assert!(reloads.settle_reload("control", None, 10_000, Instant::now()));
    assert!(!reloads.settle_reload("control", Some(9_999), 10_000, Instant::now()));
    assert!(reloads.settle_reload("control", Some(10_000), 10_000, Instant::now()));
}

use llamatrix::relay::{Relay, RelayEvent, Signal};

fn drive(events: &[RelayEvent]) -> Vec<Signal> {
    let mut r = Relay::new();
    let mut out = Vec::new();
    for e in events {
        let s = r.on_event(*e);
        if s != Signal::Silent {
            out.push(s);
        }
    }
    out
}

/// Events of a reply that resolves after `wait` ms, with an interval of `interval` ms.
fn timeline(wait: u64, interval: u64) -> Vec<RelayEvent> {
    let mut v = Vec::new();
    let mut t = interval;
    while t < wait {
        v.push(RelayEvent::Tick);
        t += interval;
    }
    v.push(RelayEvent::Resolved);
    v
}

#[test]
fn slow_reply_gives_one_heartbeat_per_interval_then_done() {
    let mut events = timeline(7500, 3000);
    events.extend([RelayEvent::Tick, RelayEvent::Tick, RelayEvent::Resolved]);
    let out = drive(&events);
    let n = (7500 / 3000) as usize;
    assert_eq!(out.len(), n + 1);
    assert!(out[..n].iter().all(|s| *s == Signal::StillWorking));
    assert_eq!(out[n], Signal::Done);
}

#[test]
fn quick_reply_gives_only_done() {
    let out = drive(&timeline(1000, 3000));
    assert_eq!(out, vec![Signal::Done]);
}

#[test]
fn nothing_after_done() {
    let mut r = Relay::new();
    assert!(!r.done());
    assert_eq!(r.on_event(RelayEvent::Tick), Signal::StillWorking);
    assert_eq!(r.on_event(RelayEvent::Resolved), Signal::Done);
    assert!(r.done());
    assert_eq!(r.on_event(RelayEvent::Tick), Signal::Silent);
    assert_eq!(r.on_event(RelayEvent::Resolved), Signal::Silent);
    assert!(r.done());
}

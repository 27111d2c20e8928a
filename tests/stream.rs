use lorri::build_loop::{Event, NixFile, Reason};
use lorri::stream_events::{EventFilter, EventKind, Verdict};

fn ev() -> Event {
    Event::Started { nix_file: NixFile::new("/a".to_string()), reason: Reason::PingReceived }
}

#[test]
fn event_kinds_parse() {
    assert_eq!(EventKind::from_str("all"), Ok(EventKind::All));
    assert_eq!(EventKind::from_str("live"), Ok(EventKind::Live));
    assert_eq!(EventKind::from_str("snapshot"), Ok(EventKind::Snapshot));
    assert_eq!(EventKind::from_str("bogus"), Err("bogus not in all,live,snapshot".to_string()));
    assert_eq!(EventKind::from_str(""), Err(" not in all,live,snapshot".to_string()));
}

fn verdicts(kind: EventKind) -> Vec<Verdict> {
    let mut f = EventFilter::new(kind);
    vec![f.step(&ev()), f.step(&Event::SectionEnd), f.step(&ev())]
}

#[test]
fn snapshot_stops_at_section_end() {
    assert_eq!(verdicts(EventKind::Snapshot), vec![Verdict::Print, Verdict::Stop, Verdict::Skip]);
}

#[test]
fn live_skips_through_section_end() {
    assert_eq!(verdicts(EventKind::Live), vec![Verdict::Skip, Verdict::Skip, Verdict::Print]);
}

#[test]
fn all_prints_every_event() {
    assert_eq!(verdicts(EventKind::All), vec![Verdict::Print, Verdict::Skip, Verdict::Print]);
}

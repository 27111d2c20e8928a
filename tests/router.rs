use crossbeam_channel::unbounded;
use lorri::build_loop::{BuildLoop, Event, NixFile, Project, Reason, RunResult};
use lorri::daemon::{LoopHandlerEvent, Registrations, Router};
use lorri::error::BuildError;
use std::sync::Arc;

fn started(file: &str) -> Event {
    Event::Started {
        nix_file: NixFile::new(file.to_string()),
        reason: Reason::PingReceived,
    }
}

fn failure(file: &str) -> Event {
    Event::Failure {
        nix_file: NixFile::new(file.to_string()),
        failure: BuildError::output("bad".to_string()),
    }
}

fn drain(rx: &crossbeam_channel::Receiver<Arc<Event>>) -> Vec<Arc<Event>> {
    rx.try_iter().collect()
}

fn file_of(ev: &Event) -> Option<&str> {
    match ev {
        Event::SectionEnd => None,
        Event::Started { nix_file, .. }
        | Event::Completed { nix_file, .. }
        | Event::Failure { nix_file, .. } => Some(nix_file.path.as_str()),
    }
}

#[test]
fn new_listener_gets_latest_state_then_section_end() {
    let mut router = Router::new();
    router.handle(LoopHandlerEvent::BuildEvent(started("/a")));
    router.handle(LoopHandlerEvent::BuildEvent(started("/b")));
    router.handle(LoopHandlerEvent::BuildEvent(failure("/a")));
    router.handle(LoopHandlerEvent::BuildEvent(Event::SectionEnd));
    assert_eq!(router.project_states().len(), 2);
    let (tx, rx) = unbounded();
    router.handle(LoopHandlerEvent::NewListener(tx));
    let got = drain(&rx);
    assert_eq!(got.len(), 3);
    assert!(matches!(*got[0], Event::Failure { .. }));
    assert_eq!(file_of(&got[0]), Some("/a"));
    assert_eq!(file_of(&got[1]), Some("/b"));
    assert!(matches!(*got[2], Event::SectionEnd));
    router.handle(LoopHandlerEvent::BuildEvent(started("/c")));
    let live = drain(&rx);
    assert_eq!(live.len(), 1);
    assert_eq!(file_of(&live[0]), Some("/c"));
    assert_eq!(router.listener_count(), 1);
}

#[test]
fn empty_router_replays_only_section_end() {
    let mut router = Router::new();
    let (tx, rx) = unbounded();
    assert!(router.add_listener(tx));
    let got = drain(&rx);
    assert_eq!(got.len(), 1);
    assert!(matches!(*got[0], Event::SectionEnd));
}

#[test]
fn disconnected_listener_is_dropped_quietly() {
    let mut router = Router::new();
    router.handle(LoopHandlerEvent::BuildEvent(started("/a")));
    let (tx1, rx1) = unbounded();
    router.handle(LoopHandlerEvent::NewListener(tx1));
    let (tx2, rx2) = unbounded();
    drop(rx2);
    assert!(!router.add_listener(tx2));
    assert_eq!(router.listener_count(), 1);
    let (tx3, rx3) = unbounded();
    router.handle(LoopHandlerEvent::NewListener(tx3));
    drop(rx3);
    router.handle(LoopHandlerEvent::BuildEvent(failure("/a")));
    assert_eq!(router.listener_count(), 1);
    let got = drain(&rx1);
    assert_eq!(got.len(), 3);
    assert!(matches!(*got[2], Event::Failure { .. }));
}

#[test]
fn listeners_before_and_after_see_completed_once() {
    let mut router = Router::new();
    let (tx1, rx1) = unbounded();
    router.handle(LoopHandlerEvent::NewListener(tx1));
    let mut lp = BuildLoop::new(Project::new(NixFile::new("/a".to_string()), "/r".to_string()));
    router.handle(LoopHandlerEvent::BuildEvent(lp.start().unwrap()));
    let res = lp.once(Ok(RunResult { referenced_paths: vec![], result: "/out/a".to_string() }));
    router.handle(LoopHandlerEvent::BuildEvent(lp.finish(res).unwrap()));
    let (tx2, rx2) = unbounded();
    router.handle(LoopHandlerEvent::NewListener(tx2));
    router.handle(LoopHandlerEvent::BuildEvent(started("/a")));
    let early = drain(&rx1);
    let late = drain(&rx2);
    let completed = |evs: &Vec<Arc<Event>>| {
        evs.iter().filter(|e| matches!(***e, Event::Completed { .. })).count()
    };
    assert_eq!(completed(&early), 1);
    assert_eq!(completed(&late), 1);
    let pos = |evs: &Vec<Arc<Event>>| {
        evs.iter().position(|e| matches!(**e, Event::Completed { .. })).unwrap()
    };
    assert!(matches!(*early[early.len() - 1], Event::Started { .. }));
    assert!(pos(&early) < early.len() - 1);
    assert!(matches!(*late[late.len() - 1], Event::Started { .. }));
    assert!(pos(&late) < late.len() - 1);
}

#[test]
fn example_session_of_one_project() {
    let mut router = Router::new();
    let mut lp = BuildLoop::new(Project::new(NixFile::new("A".to_string()), "/roots/A".to_string()));
    let ev = lp.start().unwrap();
    assert!(matches!(&ev, Event::Started { reason: Reason::ProjectAdded(_), .. }));
    router.handle(LoopHandlerEvent::BuildEvent(ev));
    let res = lp.once(Ok(RunResult { referenced_paths: vec!["/A/f".to_string()], result: "/out/a".to_string() }));
    let ev = lp.finish(res).unwrap();
    match &ev {
        Event::Completed { result, .. } => {
            assert_eq!(result.output_paths.shell_gc_root.target, "/out/a");
            assert_eq!(result.output_paths.shell_gc_root.link, "/roots/A/shell_gc_root");
        }
        _ => panic!("expected completed"),
    }
    router.handle(LoopHandlerEvent::BuildEvent(ev));
    lp.trigger(Reason::FilesChanged(vec!["/A/f".to_string()]));
    let ev = lp.start().unwrap();
    assert!(matches!(&ev, Event::Started { reason: Reason::FilesChanged(f), .. } if f.len() == 1));
    router.handle(LoopHandlerEvent::BuildEvent(ev));
    let err = BuildError::exit("nix-build".to_string(), Some(1), vec!["l1".to_string(), "l2".to_string()]);
    let res = lp.once(Err(err));
    let ev = lp.finish(res).unwrap();
    router.handle(LoopHandlerEvent::BuildEvent(ev));
    let (tx, rx) = unbounded();
    router.handle(LoopHandlerEvent::NewListener(tx));
    let got = drain(&rx);
    assert_eq!(got.len(), 2);
    match &*got[0] {
        Event::Failure { failure: BuildError::Exit { logs, .. }, .. } => {
            assert_eq!(logs.len(), 2);
            assert_eq!(logs[0].as_str(), "l1");
            assert_eq!(logs[1].as_str(), "l2");
        }
        other => panic!("unexpected {:?}", other),
    }
    assert!(matches!(*got[1], Event::SectionEnd));
}

#[test]
fn repeated_registration_is_a_no_op() {
    let mut r = Registrations::new();
    assert!(r.add(&NixFile::new("/a/shell.nix".to_string())));
    assert!(r.add(&NixFile::new("/b/shell.nix".to_string())));
    assert!(!r.add(&NixFile::new("/a/shell.nix".to_string())));
}

#[test]
fn full_listener_is_dropped_without_blocking() {
    let mut router = Router::new();
    let (tx1, rx1) = unbounded();
    router.handle(LoopHandlerEvent::NewListener(tx1));
    // room for the replay's SectionEnd only
    let (tx2, rx2) = crossbeam_channel::bounded(1);
    assert!(router.add_listener(tx2));
    assert_eq!(router.listener_count(), 2);
    router.handle(LoopHandlerEvent::BuildEvent(started("/a")));
    assert_eq!(router.listener_count(), 1);
    assert_eq!(drain(&rx1).len(), 2);
    let got = drain(&rx2);
    assert_eq!(got.len(), 1);
    assert!(matches!(*got[0], Event::SectionEnd));
    // a rendezvous channel with nobody receiving cannot even take the replay
    let (tx3, _rx3) = crossbeam_channel::bounded(0);
    assert!(!router.add_listener(tx3));
    assert_eq!(router.listener_count(), 1);
}

use lorri::build_loop::{
    translate_reason, BuildLoop, Event, EventError, NixFile, Project, Reason, RunResult,
};
use lorri::error::BuildError;

fn project(name: &str) -> Project {
    Project::new(NixFile::new(name.to_string()), format!("/roots{}", name))
}

fn run(paths: &[&str], out: &str) -> Result<RunResult, BuildError> {
    Ok(RunResult {
        referenced_paths: paths.iter().map(|s| s.to_string()).collect(),
        result: out.to_string(),
    })
}

fn is_started(ev: &Event, file: &str) -> bool {
    matches!(ev, Event::Started { nix_file, .. } if nix_file.path == file)
}

#[test]
fn first_event_is_project_added() {
    let mut lp = BuildLoop::new(project("/a/shell.nix"));
    // a trigger that arrives before the first build does not replace it
    lp.trigger(Reason::PingReceived);
    match lp.start() {
        Some(Event::Started { nix_file, reason: Reason::ProjectAdded(f) }) => {
            assert_eq!(nix_file.path, "/a/shell.nix");
            assert_eq!(f.path, "/a/shell.nix");
        }
        other => panic!("unexpected {:?}", other),
    }
}

#[test]
fn no_second_start_while_building() {
    let mut lp = BuildLoop::new(project("/a/shell.nix"));
    assert!(lp.start().is_some());
    lp.trigger(Reason::FilesChanged(vec!["/a/x".to_string()]));
    assert!(lp.start().is_none());
    let res = lp.once(run(&[], "/out/a"));
    assert!(matches!(lp.finish(res), Ok(Event::Completed { .. })));
    assert!(matches!(lp.start(), Some(Event::Started { reason: Reason::FilesChanged(_), .. })));
    assert!(lp.start().is_none());
}

#[test]
fn events_alternate_over_many_builds() {
    let mut lp = BuildLoop::new(project("/p.nix"));
    let mut seen = Vec::new();
    for round in 0..6 {
        if let Some(ev) = lp.start() {
            seen.push(ev);
        }
        let outcome = if round % 2 == 0 {
            lp.once(run(&["/src"], "/out"))
        } else {
            lp.once(Err(BuildError::output("bad".to_string())))
        };
        seen.push(lp.finish(outcome).unwrap());
        lp.trigger(Reason::UnknownEvent("?".to_string()));
    }
    assert_eq!(seen.len(), 12);
    for (i, ev) in seen.iter().enumerate() {
        assert_eq!(is_started(ev, "/p.nix"), i % 2 == 0);
    }
}

#[test]
fn success_pins_output_and_watches_reduced_paths() {
    let mut lp = BuildLoop::new(project("/a/shell.nix"));
    lp.start();
    let res = lp.once(run(&["/a/src/x.nix", "/a/src", "/a/shell.nix", "/a/src"], "/out/a")).unwrap();
    assert_eq!(res.output_paths.shell_gc_root.link, "/roots/a/shell.nix/shell_gc_root");
    assert_eq!(res.output_paths.shell_gc_root.target, "/out/a");
    assert_eq!(lp.watched(), &vec!["/a/src".to_string(), "/a/shell.nix".to_string()]);
    // paths already watched are not added twice
    lp.once(run(&["/a/src", "/b"], "/out/a")).unwrap();
    assert_eq!(
        lp.watched(),
        &vec!["/a/src".to_string(), "/a/shell.nix".to_string(), "/b".to_string()]
    );
}

#[test]
fn executor_error_passes_through_once() {
    let mut lp = BuildLoop::new(project("/a.nix"));
    lp.start();
    let r = lp.once(Err(BuildError::spawn("nix".to_string(), "missing".to_string())));
    assert!(matches!(r, Err(BuildError::Spawn { .. })));
    assert!(lp.watched().is_empty());
}

#[test]
fn io_error_is_fatal() {
    let mut lp = BuildLoop::new(project("/a.nix"));
    lp.start();
    let r = lp.finish(Err(BuildError::io("broken pipe".to_string())));
    assert!(matches!(r, Err(BuildError::Io { .. })));
    assert!(lp.is_building());
}

#[test]
fn ping_rebuilds_only_when_root_is_gone() {
    let mut lp = BuildLoop::new(project("/a.nix"));
    lp.start();
    let res = lp.once(run(&[], "/out/a"));
    lp.finish(res).unwrap();
    lp.ping(true);
    assert!(lp.start().is_none());
    lp.ping(false);
    assert!(matches!(lp.start(), Some(Event::Started { reason: Reason::PingReceived, .. })));
}

#[test]
fn ping_before_any_success_does_nothing() {
    let mut lp = BuildLoop::new(project("/a.nix"));
    lp.start();
    lp.finish(Err(BuildError::output("bad".to_string()))).unwrap();
    lp.ping(false);
    assert!(lp.start().is_none());
}

#[test]
fn watcher_reports_become_reasons() {
    assert!(matches!(
        translate_reason(Err(EventError::EventHasNoFilePath("raw".to_string()))),
        Some(Reason::UnknownEvent(m)) if m == "raw"
    ));
    assert!(translate_reason(Err(EventError::RxNoEventReceived)).is_none());
    assert!(matches!(translate_reason(Ok(Reason::PingReceived)), Some(Reason::PingReceived)));
}

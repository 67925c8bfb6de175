use cargo_gui::message::Msg;
use cargo_gui::process::{
    cargo_call, Channel, ProcessEvent, ProcessWatch, Report, START_FAILED, STOPPED,
};

fn shown(reports: &[Report]) -> Vec<String> {
    reports
        .iter()
        .map(|r| match r {
            Report::Line(line) => format!("line {line}"),
            Report::Done(success) => format!("done {success}"),
        })
        .collect()
}

#[test]
fn arguments_are_the_words_of_the_command() {
    let call = cargo_call("/project", "  build\t--release\u{2003}-p  x ");
    assert_eq!(call.args, vec!["build", "--release", "-p", "x"]);
    assert_eq!(call.directory, "/project");
    let call = cargo_call("", " \n ");
    assert!(call.args.is_empty());
    assert_eq!(call.directory, ".");
}

#[test]
fn words_agree_with_the_standard_library() {
    for text in ["", "a", " a b ", "x\u{85}y\u{200b}z", "\u{1680}ä\u{3000}ö\u{feff}", "a\u{1f}b"] {
        let words: Vec<&str> = text.split_whitespace().collect();
        assert_eq!(cargo_call("p", text).args, words);
    }
    let mut every = String::from("x");
    for c in '\0'..='\u{ffff}' {
        every.push(c);
        every.push('x');
    }
    let words: Vec<&str> = every.split_whitespace().collect();
    assert_eq!(cargo_call("p", &every).args, words);
}

#[test]
fn lines_are_reported_until_the_exit() {
    let mut watch = ProcessWatch::new();
    let mut all = Vec::new();
    for event in [
        ProcessEvent::Line(Channel::Stderr, "a".to_string()),
        ProcessEvent::Line(Channel::Stdout, "b".to_string()),
        ProcessEvent::Closed(Channel::Stdout),
        ProcessEvent::Line(Channel::Stdout, "late".to_string()),
        ProcessEvent::Exited(true),
        ProcessEvent::Line(Channel::Stderr, "c".to_string()),
        ProcessEvent::Closed(Channel::Stderr),
    ] {
        all.extend(watch.handle(event));
    }
    assert_eq!(shown(&all), vec!["line a", "line b", "line c"]);
    assert!(watch.is_waiting());
    assert!(!watch.is_reading(Channel::Stderr));
    assert!(watch.handle(ProcessEvent::StopRequested).is_empty());
    assert_eq!(shown(&watch.handle(ProcessEvent::Exited(true))), vec!["done true"]);
    assert!(watch.finished);
    assert!(watch.handle(ProcessEvent::Exited(false)).is_empty());
}

#[test]
fn stopping_ends_the_run() {
    let mut watch = ProcessWatch::new();
    assert!(watch.is_reading(Channel::Stdout) && watch.is_reading(Channel::Stderr));
    let reports = watch.handle(ProcessEvent::StopRequested);
    assert_eq!(shown(&reports), vec![format!("line {STOPPED}"), "done false".to_string()]);
    assert_eq!(STOPPED, "⚠ Prozess abgebrochen.");
    assert!(watch.handle(ProcessEvent::Line(Channel::Stdout, "x".to_string())).is_empty());
    assert!(watch.handle(ProcessEvent::StopRequested).is_empty());
}

#[test]
fn a_failed_start_is_reported() {
    let mut watch = ProcessWatch::new();
    let reports = watch.handle(ProcessEvent::StartFailed("not found".to_string()));
    assert_eq!(
        shown(&reports),
        vec!["line Fehler beim Starten von cargo: not found", "done false"]
    );
    assert_eq!(START_FAILED, "Fehler beim Starten von cargo: ");
    assert!(watch.finished);
}

#[test]
fn messages_carry_the_number_of_the_run() {
    let mut watch = ProcessWatch::new();
    let mut messages = Vec::new();
    for event in [
        ProcessEvent::Line(Channel::Stdout, "one".to_string()),
        ProcessEvent::Closed(Channel::Stdout),
        ProcessEvent::Closed(Channel::Stderr),
        ProcessEvent::Exited(true),
        ProcessEvent::Exited(false),
    ] {
        for report in watch.handle(event) {
            messages.push(report.message(7, 42));
        }
    }
    assert_eq!(messages.len(), 2);
    match &messages[0] {
        Msg::Append { line, job_id } => assert_eq!((line.as_str(), *job_id), ("one", 7)),
        _ => panic!("a line comes first"),
    }
    match &messages[1] {
        Msg::Done { success, job_id, elapsed_ms } => {
            assert_eq!((*success, *job_id, *elapsed_ms), (true, 7, 42));
        }
        _ => panic!("the end comes last"),
    }
}

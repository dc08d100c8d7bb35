use mfa_session::failure::Failure;
use mfa_session::flow::{Event, Flow, Request, Stage};
use mfa_session::selector::{select, Key};

const STORE: &[u8] = b"[work]\naws_access_key_id=AKIAWORK\naws_secret_access_key=worksecret\n\n[personal]\naws_access_key_id=AKIAHOME\naws_secret_access_key=homesecret\n";

const DEVICES: &[u8] = br#"{"MFADevices":[{"SerialNumber":"arn:aws:iam::111:mfa/dev"}]}"#;

const SESSION: &[u8] = br#"{"Credentials":{"AccessKeyId":"AKIA1","SecretAccessKey":"secret1","SessionToken":"tok1"}}"#;

fn names(list: &[&str]) -> Vec<String> {
    list.iter().map(|name| name.to_string()).collect()
}

fn confirm_first(options: &Vec<String>) -> Event {
    let chosen = select(options, &vec![Key::Confirm]).unwrap();
    Event::Chosen(options.iter().position(|option| option == chosen).unwrap())
}

fn answer(request: Request) -> Event {
    match request {
        Request::ReadStore => Event::Content(STORE.to_vec()),
        Request::Choose(options) => confirm_first(&options),
        Request::Run(arguments) => {
            if arguments[0] == "iam" {
                Event::Output(DEVICES.to_vec())
            } else {
                Event::Output(SESSION.to_vec())
            }
        }
        Request::Prompt => Event::Line("123456".to_string()),
        Request::WriteStore(_) => Event::Written,
        Request::Finish => unreachable!(),
    }
}

fn after(events: Vec<Event>) -> Flow {
    let mut flow = Flow::start();
    for event in events {
        flow = flow.advance(event);
    }
    flow
}

#[test]
fn run_from_start_to_end_with_stubs() {
    let mut flow = Flow::start();
    let mut stages = vec![flow.stage()];
    let mut written = None;
    let mut requests = 0;
    while !flow.is_over() {
        let request = flow.request();
        if let Request::WriteStore(bytes) = &request {
            written = Some(bytes.clone());
        }
        flow = flow.advance(answer(request));
        if stages.last() != Some(&flow.stage()) {
            stages.push(flow.stage());
        }
        requests += 1;
    }
    assert_eq!(flow, Flow::Done);
    assert_eq!(flow.request(), Request::Finish);
    assert_eq!(requests, 8);
    assert_eq!(
        stages,
        vec![
            Stage::SelectProfile,
            Stage::FetchDevices,
            Stage::SelectDevice,
            Stage::PromptToken,
            Stage::FetchCredentials,
            Stage::Persist,
            Stage::Done
        ]
    );
    let expected = "[work]\naws_access_key_id=AKIAWORK\naws_secret_access_key=worksecret\n\n[personal]\naws_access_key_id=AKIAHOME\naws_secret_access_key=homesecret\n\n[personal_mfa-authorized]\naws_access_key_id=AKIA1\naws_secret_access_key=secret1\naws_session_token=tok1\n";
    let written = written.unwrap();
    assert_eq!(String::from_utf8(written.clone()).unwrap(), expected);
    let document = ini::Ini::load_from_str(std::str::from_utf8(&written).unwrap()).unwrap();
    assert_eq!(
        document.get_from(Some("personal_mfa-authorized"), "aws_access_key_id"),
        Some("AKIA1")
    );
    assert_eq!(
        document.get_from(Some("personal_mfa-authorized"), "aws_secret_access_key"),
        Some("secret1")
    );
    assert_eq!(
        document.get_from(Some("personal_mfa-authorized"), "aws_session_token"),
        Some("tok1")
    );
}

#[test]
fn run_asks_for_each_step_in_turn() {
    let mut flow = Flow::start();
    assert_eq!(flow.request(), Request::ReadStore);
    flow = flow.advance(Event::Content(STORE.to_vec()));
    assert_eq!(flow.request(), Request::Choose(names(&["personal", "work"])));
    flow = flow.advance(Event::Chosen(1));
    assert_eq!(flow, Flow::FetchDevices { profile: "work".to_string() });
    assert_eq!(
        flow.request(),
        Request::Run(names(&["iam", "list-mfa-devices", "--profile", "work"]))
    );
    flow = flow.advance(Event::Output(
        br#"{"MFADevices":[{"SerialNumber":"first"},{"SerialNumber":"second"}]}"#.to_vec(),
    ));
    assert_eq!(flow.request(), Request::Choose(names(&["first", "second"])));
    flow = flow.advance(Event::Chosen(1));
    assert_eq!(
        flow,
        Flow::PromptToken { profile: "work".to_string(), device: "second".to_string() }
    );
    assert_eq!(flow.request(), Request::Prompt);
    flow = flow.advance(Event::Line("654321".to_string()));
    assert_eq!(
        flow.request(),
        Request::Run(names(&[
            "sts",
            "get-session-token",
            "--profile",
            "work",
            "--serial-number",
            "second",
            "--token-code",
            "654321"
        ]))
    );
    flow = flow.advance(Event::Output(SESSION.to_vec()));
    assert_eq!(flow.stage(), Stage::Persist);
    assert_eq!(flow.request(), Request::ReadStore);
    flow = flow.advance(Event::Content(b"[work]\nregion=eu\n".to_vec()));
    assert_eq!(
        flow.request(),
        Request::WriteStore(
            b"[work]\nregion=eu\n\n[work_mfa-authorized]\naws_access_key_id=AKIA1\naws_secret_access_key=secret1\naws_session_token=tok1\n"
                .to_vec()
        )
    );
    flow = flow.advance(Event::Written);
    assert_eq!(flow, Flow::Done);
}

#[test]
fn failure_ends_the_run_at_any_step() {
    let steps = vec![
        Event::Content(STORE.to_vec()),
        Event::Chosen(0),
        Event::Output(DEVICES.to_vec()),
        Event::Chosen(0),
        Event::Line("123456".to_string()),
        Event::Output(SESSION.to_vec()),
        Event::Content(STORE.to_vec()),
    ];
    let failures = [
        Failure::FileNotFound,
        Failure::ParseError,
        Failure::CommandExecutionError,
        Failure::TerminalUnavailable,
    ];
    for done in 0..=steps.len() {
        for failure in failures {
            let mut flow = Flow::start();
            for step in 0..done {
                let event = match &steps[step] {
                    Event::Content(bytes) => Event::Content(bytes.clone()),
                    Event::Output(bytes) => Event::Output(bytes.clone()),
                    Event::Line(line) => Event::Line(line.clone()),
                    Event::Chosen(index) => Event::Chosen(*index),
                    _ => unreachable!(),
                };
                flow = flow.advance(event);
            }
            assert!(!flow.is_over());
            flow = flow.advance(Event::Failed(failure));
            assert_eq!(flow, Flow::Failed { failure });
            assert_eq!(flow.stage(), Stage::Failed);
            assert_eq!(flow.request(), Request::Finish);
        }
    }
}

#[test]
fn missing_store_is_file_not_found() {
    let flow = after(vec![Event::Failed(Failure::FileNotFound)]);
    assert_eq!(flow, Flow::Failed { failure: Failure::FileNotFound });
}

#[test]
fn unrunnable_command_is_command_execution_error() {
    let flow = after(vec![
        Event::Content(STORE.to_vec()),
        Event::Chosen(0),
        Event::Failed(Failure::CommandExecutionError),
    ]);
    assert_eq!(flow, Flow::Failed { failure: Failure::CommandExecutionError });
}

#[test]
fn terminal_that_is_not_interactive_is_terminal_unavailable() {
    let flow = after(vec![
        Event::Content(STORE.to_vec()),
        Event::Failed(Failure::TerminalUnavailable),
    ]);
    assert_eq!(flow, Flow::Failed { failure: Failure::TerminalUnavailable });
}

#[test]
fn malformed_answers_are_parse_errors() {
    let parse_error = Flow::Failed { failure: Failure::ParseError };
    assert_eq!(after(vec![Event::Content(b"[work".to_vec())]), parse_error);
    assert_eq!(
        after(vec![
            Event::Content(STORE.to_vec()),
            Event::Chosen(0),
            Event::Output(b"An error occurred".to_vec())
        ]),
        parse_error
    );
    assert_eq!(
        after(vec![
            Event::Content(STORE.to_vec()),
            Event::Chosen(0),
            Event::Output(DEVICES.to_vec()),
            Event::Chosen(0),
            Event::Line("000000".to_string()),
            Event::Output(br#"{"Error":"AccessDenied"}"#.to_vec())
        ]),
        parse_error
    );
    assert_eq!(
        after(vec![
            Event::Content(STORE.to_vec()),
            Event::Chosen(0),
            Event::Output(DEVICES.to_vec()),
            Event::Chosen(0),
            Event::Line("000000".to_string()),
            Event::Output(SESSION.to_vec()),
            Event::Content(b"=broken".to_vec())
        ]),
        parse_error
    );
}

#[test]
fn nothing_to_select_is_a_parse_error() {
    let parse_error = Flow::Failed { failure: Failure::ParseError };
    assert_eq!(after(vec![Event::Content(b"".to_vec())]), parse_error);
    assert_eq!(after(vec![Event::Content(b"[a_mfa-authorized]\nk=v\n".to_vec())]), parse_error);
    assert_eq!(
        after(vec![
            Event::Content(STORE.to_vec()),
            Event::Chosen(0),
            Event::Output(br#"{"MFADevices":[]}"#.to_vec())
        ]),
        parse_error
    );
}

#[test]
fn cancel_ends_the_run() {
    let flow = after(vec![Event::Content(STORE.to_vec()), Event::Cancelled]);
    assert_eq!(flow, Flow::Cancelled);
    assert_eq!(flow.stage(), Stage::Cancelled);
    assert!(flow.is_over());
    assert_eq!(flow.request(), Request::Finish);
    let flow = after(vec![
        Event::Content(STORE.to_vec()),
        Event::Chosen(0),
        Event::Output(DEVICES.to_vec()),
        Event::Cancelled,
    ]);
    assert_eq!(flow, Flow::Cancelled);
}

#[test]
fn ended_run_stays_as_it_is() {
    let events = || {
        vec![
            Event::Content(STORE.to_vec()),
            Event::Chosen(0),
            Event::Cancelled,
            Event::Output(DEVICES.to_vec()),
            Event::Line("1".to_string()),
            Event::Written,
            Event::Failed(Failure::ParseError),
        ]
    };
    for event in events() {
        assert_eq!(Flow::Done.advance(event), Flow::Done);
    }
    for event in events() {
        assert_eq!(Flow::Cancelled.advance(event), Flow::Cancelled);
    }
    for event in events() {
        let failed = Flow::Failed { failure: Failure::FileNotFound };
        assert_eq!(failed.advance(event), Flow::Failed { failure: Failure::FileNotFound });
    }
}

#[test]
fn event_that_answers_nothing_is_passed_over() {
    let flow = Flow::start().advance(Event::Written);
    assert_eq!(flow, Flow::SelectProfile { offered: None });
    let flow = flow.advance(Event::Chosen(0));
    assert_eq!(flow, Flow::SelectProfile { offered: None });
    let flow = flow.advance(Event::Cancelled);
    assert_eq!(flow, Flow::SelectProfile { offered: None });
    let flow = flow.advance(Event::Content(STORE.to_vec()));
    let offered = Flow::SelectProfile { offered: Some(names(&["personal", "work"])) };
    assert_eq!(flow, offered);
    let flow = flow.advance(Event::Chosen(2));
    assert_eq!(flow, offered);
    let flow = flow.advance(Event::Line("x".to_string()));
    assert_eq!(flow, offered);
    let flow = flow.advance(Event::Chosen(0)).advance(Event::Cancelled);
    assert_eq!(flow, Flow::FetchDevices { profile: "personal".to_string() });
}

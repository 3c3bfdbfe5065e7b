//! The run of the checks before going live.

use apc_proxy::hsm_probe::ProbeOutcome;
use apc_proxy::verify::{Credentials, FileFact, KeyFacts, KeyReply, ListenFiles, Report};
use apc_proxy::verify_run::{Question, RunEvent, RunStep, VerifyRun};

fn begin(hsm: bool, mappings: &[(&str, &str)]) -> RunStep {
    VerifyRun::begin(
        "thales_payshield".to_string(),
        if hsm { Some(("hsm".to_string(), 1500)) } else { None },
        mappings
            .iter()
            .map(|(l, i)| (l.to_string(), i.to_string()))
            .collect(),
    )
}

fn good() -> KeyReply {
    KeyReply::Key(KeyFacts {
        state: "CREATE_COMPLETE".to_string(),
        enabled: true,
        kcv: "D5D44F".to_string(),
        attributes: Some(("U".to_string(), "A".to_string())),
    })
}

fn asked(question: &Question) -> String {
    match question {
        Question::Credentials => "credentials".to_string(),
        Question::Scan => "scan".to_string(),
        Question::Key(id) => format!("key {id}"),
        Question::Hsm(label) => format!("hsm {label}"),
        Question::Files => "files".to_string(),
    }
}

/// Answer every question: the key of `bad` is disabled, and the HSM answers the label
/// `off` that it refuses the command.
fn drive(mut step: RunStep, bad: &str, off: &str) -> (Vec<String>, Report) {
    let mut log = Vec::new();
    loop {
        match step {
            RunStep::Done(report) => return (log, report),
            RunStep::Ask { question, run } => {
                log.push(asked(&question));
                let event = match question {
                    Question::Credentials => RunEvent::Credentials(Credentials::Resolved),
                    Question::Scan => RunEvent::Scanned(None),
                    Question::Key(id) if id == bad => RunEvent::Key(KeyReply::Key(KeyFacts {
                        state: "CREATE_COMPLETE".to_string(),
                        enabled: false,
                        kcv: String::new(),
                        attributes: None,
                    })),
                    Question::Key(_) => RunEvent::Key(good()),
                    Question::Hsm(label) if label == off => {
                        RunEvent::Hsm(ProbeOutcome::CommandDisabled)
                    }
                    Question::Hsm(_) => RunEvent::Hsm(ProbeOutcome::Kcv("D5D44F".to_string())),
                    Question::Files => RunEvent::Files { listen: None, discover: None },
                };
                step = run.next(event);
            }
        }
    }
}

#[test]
fn a_run_asks_for_each_key_once() {
    let mappings = [("a", "k1"), ("b", "k2"), ("c", "k1")];
    let (log, report) = drive(begin(false, &mappings), "", "");
    assert_eq!(log, ["credentials", "scan", "key k1", "key k2", "files"]);
    assert!(report.is_clean());
    // credentials, scan, and each mapping
    assert_eq!(report.ok.len(), 5);
    assert!(report.ok[4].starts_with("c "));
}

#[test]
fn the_hsm_is_asked_of_each_usable_mapping_until_it_refuses() {
    let mappings = [("a", "k1"), ("b", "k1"), ("c", "k2"), ("d", "k3"), ("e", "k1")];
    let (log, report) = drive(begin(true, &mappings), "k2", "d");
    assert_eq!(
        log,
        [
            "credentials", "scan", "key k1", "hsm a", "hsm b", "key k2", "key k3", "hsm d",
            "files",
        ]
    );
    assert_eq!(report.errors.len(), 1);
    assert!(report.errors[0].ends_with(" DISABLED"));
    assert!(!report.is_clean());
}

#[test]
fn every_mapping_counts_towards_the_verdict() {
    let mappings = [("a", "k1"), ("b", "k2"), ("c", "k3")];
    for bad in ["k1", "k2", "k3"] {
        assert!(!drive(begin(false, &mappings), bad, "").1.is_clean());
    }
    assert!(drive(begin(false, &mappings), "", "").1.is_clean());
    assert!(drive(begin(false, &[]), "", "").1.is_clean());
}

#[test]
fn a_run_without_credentials_is_over() {
    match begin(false, &[("a", "k1")]) {
        RunStep::Ask { run, .. } => {
            match run.next(RunEvent::Credentials(Credentials::NoProvider)) {
                RunStep::Done(report) => {
                    assert_eq!(report.errors, ["no AWS credentials provider in config"]);
                    assert!(report.ok.is_empty());
                }
                RunStep::Ask { .. } => panic!("goes on"),
            }
        }
        RunStep::Done(_) => panic!("over before it began"),
    }
}

#[test]
fn an_answer_to_another_question_is_passed_over() {
    match begin(false, &[]) {
        RunStep::Ask { run, .. } => match run.next(RunEvent::Key(good())) {
            RunStep::Ask { question, .. } => assert_eq!(asked(&question), "credentials"),
            RunStep::Done(_) => panic!("over"),
        },
        RunStep::Done(_) => panic!("over before it began"),
    }
}

#[test]
fn missing_files_fail_the_run() {
    let mut step = begin(false, &[]);
    let fact = |path: &str, exists| FileFact { path: path.to_string(), exists };
    loop {
        match step {
            RunStep::Done(report) => {
                assert_eq!(report.errors, ["listen.tls.key_file does not exist: key.pem"]);
                return;
            }
            RunStep::Ask { question, run } => {
                let event = match question {
                    Question::Credentials => RunEvent::Credentials(Credentials::Resolved),
                    Question::Scan => RunEvent::Scanned(Some("refused".to_string())),
                    _ => RunEvent::Files {
                        listen: Some(ListenFiles {
                            cert_file: fact("cert.pem", true),
                            key_file: fact("key.pem", false),
                            ca_file: None,
                        }),
                        discover: None,
                    },
                };
                step = run.next(event);
            }
        }
    }
}

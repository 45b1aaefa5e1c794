use skanuvaty::model::{Address, Ip, RootDomain, Subdomain};
use skanuvaty::pool::merge_buffers;
use skanuvaty::progress::{Display, ProgressAggregator, ProgressEvent};
use skanuvaty::queue::candidates;
use skanuvaty::report::assemble;
use skanuvaty::resolver::{
    finish_lookup, start_lookup, Absence, QueryClass, QueryOutcome, QueryType, RecordData,
};
use skanuvaty::worker::{Phase, Worker, WorkerAction, WorkerEvent};

struct Outcome {
    report: RootDomain,
    root_unresolved: bool,
    processed: u64,
    found: u64,
    increments: usize,
    buffer_sizes: Vec<usize>,
    reported_absences: usize,
}

fn lookup(host: &str, resolver: &dyn Fn(&str) -> QueryOutcome) -> Result<Vec<Ip>, Absence> {
    match start_lookup(host) {
        Ok(question) => {
            assert_eq!(question.class, QueryClass::Internet);
            assert_eq!(question.record_type, QueryType::A);
            assert!(!question.name.to_utf8().is_empty());
            finish_lookup(resolver(host))
        },
        Err(absence) => Err(absence),
    }
}

fn enumerate(
    words: &[&str],
    target: &str,
    concurrency: usize,
    resolver: &dyn Fn(&str) -> QueryOutcome,
) -> Outcome {
    let words: Vec<String> = words.iter().map(|word| word.to_string()).collect();
    let queue = candidates(&words, target);
    let mut workers: Vec<Worker> = (0..concurrency).map(|_| Worker::new()).collect();
    let mut aggregator = ProgressAggregator::new();
    let mut increments = 0;
    let mut reported_absences = 0;
    for (turn, host) in queue.into_iter().enumerate() {
        let at = turn % concurrency;
        let worker = workers.remove(at);
        let (worker, action) = worker.step(WorkerEvent::Candidate(host));
        let host = match action {
            Some(WorkerAction::Resolve(host)) => host,
            other => panic!("unexpected: {:?}", other),
        };
        let resolution = match lookup(&host, resolver) {
            Ok(ips) => Some(ips),
            Err(absence) => {
                if absence.is_reported() {
                    reported_absences += 1;
                }
                None
            },
        };
        let (worker, action) = worker.step(WorkerEvent::Resolved(resolution));
        match action {
            Some(WorkerAction::Report(events)) => {
                for event in events {
                    if event == ProgressEvent::Increment {
                        increments += 1;
                    }
                    assert!(aggregator.has_room());
                    assert!(aggregator.apply(event).is_some());
                }
            },
            other => panic!("unexpected: {:?}", other),
        }
        workers.insert(at, worker);
    }
    let mut buffers = Vec::new();
    for worker in workers {
        let (worker, action) = worker.step(WorkerEvent::EndOfStream);
        assert_eq!(action, Some(WorkerAction::Return));
        assert_eq!(worker.phase(), Phase::Draining);
        buffers.push(worker.into_buffer());
    }
    let buffer_sizes = buffers.iter().map(|buffer| buffer.len()).collect();
    let found = merge_buffers(buffers);
    assert_eq!(aggregator.apply(ProgressEvent::Finish), Some(Display::Close(found.len() as u64)));
    let root = lookup(target, resolver).ok();
    let (report, root_unresolved) = assemble(target.to_string(), found, root);
    Outcome {
        report,
        root_unresolved,
        processed: aggregator.processed_count(),
        found: aggregator.found_count(),
        increments,
        buffer_sizes,
        reported_absences,
    }
}

fn example_resolver(host: &str) -> QueryOutcome {
    match host {
        "www.example.com" => QueryOutcome::Answers(vec![Some(RecordData::A(1, 2, 3, 4))]),
        "mail.example.com" => QueryOutcome::Answers(vec![Some(RecordData::A(5, 6, 7, 8))]),
        "example.com" => QueryOutcome::Answers(vec![Some(RecordData::A(93, 184, 216, 34))]),
        _ => QueryOutcome::Timeout,
    }
}

fn nothing_resolves(_host: &str) -> QueryOutcome {
    QueryOutcome::Answers(Vec::new())
}

fn only_subdomains_resolve(host: &str) -> QueryOutcome {
    if host == "example.com" {
        QueryOutcome::Failed("connection refused".to_string())
    } else {
        example_resolver(host)
    }
}

fn everything_resolves(_host: &str) -> QueryOutcome {
    QueryOutcome::Answers(vec![Some(RecordData::A(10, 0, 0, 1))])
}

#[test]
fn two_of_three_candidates_resolve() {
    let outcome = enumerate(&["www", "mail", "doesnotexist123xyz"], "example.com", 1, &example_resolver);
    assert_eq!(
        outcome.report.subdomains,
        vec![
            Subdomain {
                name: "www.example.com".to_string(),
                addresses: vec![Address { ip: Ip::V4(1, 2, 3, 4) }],
            },
            Subdomain {
                name: "mail.example.com".to_string(),
                addresses: vec![Address { ip: Ip::V4(5, 6, 7, 8) }],
            },
        ]
    );
    assert_eq!(outcome.processed, 3);
    assert_eq!(outcome.found, 2);
    assert_eq!(outcome.report.name, "example.com");
    assert_eq!(outcome.reported_absences, 0);
}

#[test]
fn two_of_three_candidates_resolve_with_two_workers() {
    let outcome = enumerate(&["www", "mail", "doesnotexist123xyz"], "example.com", 2, &example_resolver);
    let mut names: Vec<String> =
        outcome.report.subdomains.iter().map(|subdomain| subdomain.name.clone()).collect();
    names.sort();
    assert_eq!(names, vec!["mail.example.com".to_string(), "www.example.com".to_string()]);
    for subdomain in &outcome.report.subdomains {
        assert_eq!(subdomain.addresses.len(), 1);
    }
    assert_eq!(outcome.processed, 3);
    assert_eq!(outcome.found, 2);
}

#[test]
fn empty_wordlist_gives_an_empty_report() {
    let outcome = enumerate(&[], "example.com", 3, &example_resolver);
    assert!(outcome.report.subdomains.is_empty());
    assert_eq!(outcome.report.addresses, vec![Address { ip: Ip::V4(93, 184, 216, 34) }]);
    assert!(!outcome.root_unresolved);
    assert_eq!(outcome.found, 0);
    assert_eq!(outcome.processed, 0);
}

#[test]
fn unresolved_root_leaves_the_subdomains_alone() {
    let outcome = enumerate(&["www", "mail"], "example.com", 1, &only_subdomains_resolve);
    assert!(outcome.root_unresolved);
    assert!(outcome.report.addresses.is_empty());
    assert_eq!(outcome.report.subdomains.len(), 2);
    assert_eq!(outcome.report.subdomains[0].name, "www.example.com");
    assert_eq!(outcome.report.subdomains[1].name, "mail.example.com");
    assert_eq!(outcome.reported_absences, 0);
}

#[test]
fn four_workers_and_a_thousand_absent_candidates() {
    let words: Vec<String> = (0..1000).map(|i| format!("host{}", i)).collect();
    let words: Vec<&str> = words.iter().map(|word| word.as_str()).collect();
    let outcome = enumerate(&words, "example.com", 4, &nothing_resolves);
    assert_eq!(outcome.buffer_sizes, vec![0, 0, 0, 0]);
    assert!(outcome.report.subdomains.is_empty());
    assert_eq!(outcome.increments, 1000);
    assert_eq!(outcome.processed, 1000);
    assert_eq!(outcome.found, 0);
}

#[test]
fn every_candidate_is_counted_once_whatever_the_concurrency() {
    let words: Vec<String> = (0..37).map(|i| format!("w{}", i)).collect();
    let words: Vec<&str> = words.iter().map(|word| word.as_str()).collect();
    for concurrency in 1..=8 {
        let outcome = enumerate(&words, "example.com", concurrency, &example_resolver);
        assert_eq!(outcome.increments, 37);
        assert_eq!(outcome.processed, 37);
        assert_eq!(outcome.buffer_sizes.len(), concurrency);
    }
}

#[test]
fn found_count_is_the_size_of_the_report() {
    let words = ["www", "a", "mail", "b", "c", "www2"];
    for concurrency in 1..=4 {
        let outcome = enumerate(&words, "example.com", concurrency, &example_resolver);
        assert_eq!(outcome.found, 2);
        assert_eq!(outcome.found as usize, outcome.report.subdomains.len());
        assert_eq!(outcome.buffer_sizes.iter().sum::<usize>(), 2);
    }
}

#[test]
fn distinct_lines_give_distinct_names_in_the_report() {
    let words: Vec<String> = (0..50).map(|i| format!("n{}", i)).collect();
    let words: Vec<&str> = words.iter().map(|word| word.as_str()).collect();
    let outcome = enumerate(&words, "example.com", 3, &everything_resolves);
    assert_eq!(outcome.report.subdomains.len(), 50);
    let mut names: Vec<String> =
        outcome.report.subdomains.iter().map(|subdomain| subdomain.name.clone()).collect();
    names.sort();
    names.dedup();
    assert_eq!(names.len(), 50);
}

#[test]
fn report_follows_the_workers_in_order() {
    let outcome = enumerate(&["a", "b", "c", "d", "e"], "example.com", 2, &everything_resolves);
    let names: Vec<&str> =
        outcome.report.subdomains.iter().map(|subdomain| subdomain.name.as_str()).collect();
    assert_eq!(
        names,
        vec!["a.example.com", "c.example.com", "e.example.com", "b.example.com", "d.example.com"]
    );
    assert_eq!(outcome.buffer_sizes, vec![3, 2]);
}

#[test]
fn malformed_candidate_is_absent_and_still_counted() {
    let outcome = enumerate(&["www", "not a name", ""], "example.com", 1, &everything_resolves);
    assert_eq!(outcome.processed, 3);
    assert_eq!(outcome.found, 1);
    assert_eq!(outcome.reported_absences, 2);
    assert_eq!(outcome.report.subdomains.len(), 1);
    assert_eq!(outcome.report.subdomains[0].name, "www.example.com");
}

#[test]
fn failed_queries_are_reported_and_timeouts_are_not() {
    let failing = |host: &str| {
        if host.starts_with("t") {
            QueryOutcome::Timeout
        } else {
            QueryOutcome::Failed("malformed response".to_string())
        }
    };
    let outcome = enumerate(&["t1", "f1", "t2", "f2", "f3"], "example.org", 2, &failing);
    assert_eq!(outcome.reported_absences, 3);
    assert_eq!(outcome.processed, 5);
    assert_eq!(outcome.found, 0);
    assert!(outcome.root_unresolved);
}

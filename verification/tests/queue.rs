use boardjudge::judger::queue::Judger;
use boardjudge::judger::Judge;
use boardjudge::judger::Status;
use boardjudge::judger::Tests;

fn request(id: &str) -> Judge {
    Judge {
        record_id: id.to_string(),
        problem_id: "p".to_string(),
        time_limit: 1000,
        memory_limit: 1 << 26,
        language: "c".to_string(),
        code: String::new(),
    }
}

#[test]
fn requests_are_served_in_arrival_order() {
    let mut q = Judger::daemon();
    q.submit(request("first"));
    q.submit(request("second"));
    q.submit(request("third"));
    let a = q.begin().expect("an idle queue with work hands one out");
    assert_eq!(a.record_id, "first");
    q.complete(Some((Status::Accepted, Tests::Tests(Vec::new()))));
    let b = q.begin().expect("the next in line follows");
    assert_eq!(b.record_id, "second");
    q.complete(Some((Status::Accepted, Tests::Tests(Vec::new()))));
    let c = q.begin().expect("the last in line follows");
    assert_eq!(c.record_id, "third");
}

#[test]
fn at_most_one_request_is_in_flight() {
    let mut q = Judger::daemon();
    q.submit(request("first"));
    q.submit(request("second"));
    assert!(q.begin().is_some());
    assert!(q.begin().is_none(), "a second execution must wait");
    q.complete(Some((Status::Accepted, Tests::Tests(Vec::new()))));
    assert!(q.begin().is_some());
}

#[test]
fn an_idle_empty_queue_hands_nothing_out() {
    let mut q = Judger::daemon();
    assert!(q.begin().is_none());
}

#[test]
fn a_lost_orchestration_still_resolves_to_judge_failed() {
    let mut q = Judger::daemon();
    q.submit(request("only"));
    assert!(q.begin().is_some());
    let (status, detail) = q.complete(None);
    assert_eq!(status, Status::JudgeFailed);
    assert!(matches!(detail, Tests::Message(m) if m == "{}"));
}

#[test]
fn a_delivered_result_passes_through_unchanged() {
    let mut q = Judger::daemon();
    q.submit(request("only"));
    assert!(q.begin().is_some());
    let (status, detail) = q.complete(Some((Status::WrongAnswer, Tests::Tests(Vec::new()))));
    assert_eq!(status, Status::WrongAnswer);
    assert!(matches!(detail, Tests::Tests(ts) if ts.is_empty()));
}

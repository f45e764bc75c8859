use std::time::Duration;
use worldchat::runtime::{Task, TokioRuntime};

#[test]
fn task_result_is_collected_once() {
    let rt = tokio::runtime::Runtime::new().unwrap();
    let runtime = {
        let _guard = rt.enter();
        TokioRuntime::new().unwrap()
    };
    let mut task = Task::spawn(&runtime, async { 40 + 2 });
    let mut tries = 0;
    while !task.is_finished() && tries < 200 {
        rt.block_on(async { tokio::time::sleep(Duration::from_millis(10)).await });
        tries += 1;
    }
    assert!(task.is_finished());
    match task.join_if_finished() {
        Some(Ok(v)) => assert_eq!(v, 42),
        other => panic!("unexpected {:?}", other.map(|r| r.is_ok())),
    }
    assert!(task.join_if_finished().is_none());
    assert!(task.is_finished());
}

#[test]
fn unfinished_task_gives_nothing_and_drop_cancels() {
    let rt = tokio::runtime::Runtime::new().unwrap();
    let runtime = {
        let _guard = rt.enter();
        TokioRuntime::new().unwrap()
    };
    let handle = runtime.handle().spawn(async {
        tokio::time::sleep(Duration::from_secs(60)).await;
        1
    });
    let mut task = Task::new(handle);
    assert!(!task.is_finished());
    assert!(task.join_if_finished().is_none());
    drop(task);
}

#[test]
fn empty_task_counts_as_finished() {
    let mut task: Task<u8> = Task(None);
    assert!(task.is_finished());
    assert!(task.join_if_finished().is_none());
    assert!(task.0.is_none());
}

#[test]
fn no_runtime_outside_a_runtime_context() {
    assert!(TokioRuntime::new().is_none());
}

#[test]
fn take_if_finished_follows_its_argument() {
    let rt = tokio::runtime::Runtime::new().unwrap();
    let handle = rt.spawn(async { 5u8 });
    let mut task = Task::new(handle);
    assert!(task.take_if_finished(false).is_none());
    assert!(task.0.is_some());
    let taken = task.take_if_finished(true);
    assert!(taken.is_some());
    assert!(task.0.is_none());
    assert!(task.take_if_finished(true).is_none());
    assert_eq!(rt.block_on(taken.unwrap()).unwrap(), 5);
}

#[test]
fn join_works_inside_an_async_context() {
    let rt = tokio::runtime::Runtime::new().unwrap();
    let runtime = {
        let _guard = rt.enter();
        TokioRuntime::new().unwrap()
    };
    let mut task = Task::spawn(&runtime, async { 7u32 });
    let got = rt.block_on(async move {
        for _ in 0..200 {
            if let Some(outcome) = task.join_if_finished() {
                return Some(outcome.unwrap());
            }
            tokio::time::sleep(Duration::from_millis(10)).await;
        }
        None
    });
    assert_eq!(got, Some(7));
}

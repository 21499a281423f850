use std::cell::RefCell;
use std::rc::Rc;

use futures_util::future::{ready, Abortable, Aborted, FutureExt};
use futures_util::stream::{iter, TryStreamExt};

use underlying_streams::pull::settle;
use underlying_streams::readable::into_underlying_source::{
    Inner, IntoUnderlyingSource, PullAction, UnderlyingSource,
};
use underlying_streams::throw::Throw;

type Next = Result<Option<u32>, String>;

#[test]
fn chunk_keeps_the_stream() {
    let mut inner = Inner::new("stream");
    let stream = inner.begin_pull().unwrap();
    assert_eq!(stream, "stream");
    let next: Next = Ok(Some(7));
    assert_eq!(inner.finish_pull(stream, next), PullAction::Enqueue(7));
    assert_eq!(inner.begin_pull(), Ok("stream"));
}

#[test]
fn end_drops_the_stream() {
    let mut inner = Inner::new(1u8);
    let stream = inner.begin_pull().unwrap();
    let next: Next = Ok(None);
    assert_eq!(inner.finish_pull(stream, next), PullAction::Close);
    assert_eq!(inner.begin_pull(), Err(Throw::Spent));
    assert_eq!(inner.begin_pull(), Err(Throw::Spent));
}

#[test]
fn stream_error_is_the_answer_and_drops_the_stream() {
    let mut inner = Inner::new(1u8);
    let stream = inner.begin_pull().unwrap();
    let next: Next = Err("broken".to_string());
    assert_eq!(
        inner.finish_pull(stream, next),
        PullAction::Done(Err("broken".to_string()))
    );
    assert_eq!(inner.begin_pull(), Err(Throw::Spent));
}

#[test]
fn interrupted_pull_leaves_no_stream() {
    let mut inner = Inner::new(1u8);
    drop(inner.begin_pull());
    assert_eq!(inner.begin_pull(), Err(Throw::Spent));
}

#[test]
fn failed_enqueue_is_the_answer_and_keeps_the_stream() {
    let mut inner = Inner::new(1u8);
    let stream = inner.begin_pull().unwrap();
    let next: Next = Ok(Some(3));
    let action = inner.finish_pull(stream, next);
    assert_eq!(
        action.advance(Err("closed".to_string())),
        PullAction::Done(Err("closed".to_string()))
    );
    assert_eq!(inner.begin_pull(), Ok(1));
}

#[test]
fn call_after_chunk_or_end_is_the_answer() {
    let enqueue: PullAction<u32, u8> = PullAction::Enqueue(3);
    assert_eq!(enqueue.advance(Ok(())), PullAction::Done(Ok(())));
    let close: PullAction<u32, u8> = PullAction::Close;
    assert_eq!(close.advance(Err(9)), PullAction::Done(Err(9)));
    let done: PullAction<u32, u8> = PullAction::Done(Err(4));
    assert_eq!(done.advance(Ok(())), PullAction::Done(Err(4)));
}

#[test]
fn real_stream_is_enqueued_in_order_and_closed() {
    let items: Vec<Result<u32, String>> = vec![Ok(5), Ok(6), Ok(7)];
    let mut inner = Inner::new(iter(items));
    let mut enqueued = Vec::new();
    loop {
        let mut stream = inner.begin_pull().unwrap();
        let next = stream.try_next().now_or_never().unwrap();
        match inner.finish_pull(stream, next) {
            PullAction::Enqueue(chunk) => enqueued.push(chunk),
            PullAction::Close => break,
            PullAction::Done(answer) => panic!("{:?}", answer),
        }
    }
    assert_eq!(enqueued, vec![5, 6, 7]);
    assert!(inner.begin_pull().is_err());
}

fn raw_source(value: u32) -> (Rc<RefCell<u32>>, UnderlyingSource<RefCell<u32>>) {
    let cell = Rc::new(RefCell::new(value));
    let raw = IntoUnderlyingSource::new(cell.clone()).into_raw();
    (cell, raw)
}

#[test]
fn pull_shares_the_cell_and_hands_the_controller_on() {
    let (cell, mut raw) = raw_source(1);
    let task = raw.pull("controller").unwrap();
    assert!(Rc::ptr_eq(&task.inner, &cell));
    assert_eq!(task.controller, "controller");
    *task.inner.borrow_mut() = 2;
    assert_eq!(*cell.borrow(), 2);
}

#[test]
fn cancel_aborts_the_last_pull_and_no_other() {
    let (_, mut raw) = raw_source(1);
    let first = raw.pull(()).unwrap();
    assert!(first.replaced.is_none());
    let first = first.registration.into_registration();
    let second = raw.pull(()).unwrap();
    let replaced = second.replaced.unwrap();
    let second = second.registration.into_registration();
    assert!(!replaced.is_aborted());
    assert!(!second.handle().is_aborted());
    assert!(raw.cancel().is_some());
    assert!(second.handle().is_aborted());
    assert!(!replaced.is_aborted());
    assert!(!first.handle().is_aborted());
    let answer: Result<u32, Aborted> =
        Abortable::new(ready(1), second).now_or_never().unwrap();
    assert_eq!(answer, Err(Aborted));
    let answer: Result<u32, Aborted> = Abortable::new(ready(1), first).now_or_never().unwrap();
    assert_eq!(answer, Ok(1));
}

#[test]
fn replaced_handle_is_that_of_the_pull_before() {
    let (_, mut raw) = raw_source(1);
    let first = raw.pull(()).unwrap().registration.into_registration();
    let replaced = raw.pull(()).unwrap().replaced.unwrap();
    replaced.abort();
    assert!(first.handle().is_aborted());
}

#[test]
fn cancel_without_pull_aborts_nothing() {
    let (_, mut raw) = raw_source(1);
    assert!(raw.cancel().is_none());
}

#[test]
fn callbacks_after_cancel() {
    let (cell, mut raw) = raw_source(1);
    assert_eq!(Rc::strong_count(&cell), 2);
    raw.pull(()).unwrap();
    assert!(raw.cancel().is_some());
    assert_eq!(Rc::strong_count(&cell), 1);
    assert_eq!(raw.pull(()).err(), Some(Throw::Released));
    assert!(raw.cancel().is_none());
    assert_eq!(raw.pull(()).err(), Some(Throw::Released));
}

#[test]
fn dropping_the_source_aborts_its_pull() {
    let mut source = IntoUnderlyingSource::new(Rc::new(0u8));
    let task = source.pull(());
    let registration = task.registration.into_registration();
    assert!(!registration.handle().is_aborted());
    assert!(source.drop().is_some());
    assert!(registration.handle().is_aborted());
    assert!(IntoUnderlyingSource::new(Rc::new(0u8)).drop().is_none());
}

#[test]
fn aborted_pull_is_answered_with_success() {
    let aborted: Result<Result<(), String>, Aborted> = Err(Aborted);
    assert_eq!(settle(aborted), Ok(()));
    assert_eq!(settle::<String>(Ok(Ok(()))), Ok(()));
    assert_eq!(settle(Ok(Err("broken".to_string()))), Err("broken".to_string()));
}

use std::cell::RefCell;
use std::rc::Rc;

use futures_util::future::{ready, FutureExt};
use futures_util::sink::{unfold, SinkExt};

use underlying_streams::throw::Throw;
use underlying_streams::writable::into_underlying_sink::{Inner, IntoUnderlyingSink};

#[test]
fn successful_write_keeps_the_sink() {
    let mut inner = Inner::new("sink");
    for chunk in 0u32..3 {
        let job = inner.begin_write(chunk).unwrap();
        assert_eq!(job.sink, "sink");
        assert_eq!(job.chunk, chunk);
        assert_eq!(inner.finish_write::<String>(job.sink, Ok(())), Ok(()));
    }
    assert_eq!(inner.close(), Ok("sink"));
}

#[test]
fn failed_write_drops_the_sink() {
    let mut inner = Inner::new(1u8);
    let job = inner.begin_write('a').unwrap();
    let answer = inner.finish_write(job.sink, Err("full"));
    assert_eq!(answer, Err("full"));
    assert_eq!(inner.begin_write('b').err(), Some(Throw::Spent));
    assert_eq!(inner.close(), Err(Throw::Spent));
    assert_eq!(inner.abort::<_, String>("reason"), Ok(()));
}

#[test]
fn interrupted_write_leaves_no_sink() {
    let mut inner = Inner::new(1u8);
    drop(inner.begin_write('a'));
    assert_eq!(inner.begin_write('b').err(), Some(Throw::Spent));
    assert_eq!(inner.close(), Err(Throw::Spent));
}

#[test]
fn close_takes_the_sink_once() {
    let mut inner = Inner::new(1u8);
    assert_eq!(inner.close(), Ok(1));
    assert_eq!(inner.close(), Err(Throw::Spent));
    assert_eq!(inner.begin_write('a').err(), Some(Throw::Spent));
}

#[test]
fn abort_always_succeeds_and_drops_the_sink() {
    let sink = Rc::new(());
    let mut inner = Inner::new(sink.clone());
    assert_eq!(inner.abort::<_, u8>("first"), Ok(()));
    assert_eq!(Rc::strong_count(&sink), 1);
    assert_eq!(inner.abort::<_, u8>("second"), Ok(()));
    assert_eq!(inner.begin_write('a').err(), Some(Throw::Spent));
}

#[test]
fn real_sink_takes_the_chunks_until_it_fails() {
    let seen = Rc::new(RefCell::new(Vec::new()));
    let log = seen.clone();
    let mut inner = Inner::new(Box::pin(unfold((), move |_, chunk: u32| {
        log.borrow_mut().push(chunk);
        ready(if chunk < 6 { Ok(()) } else { Err("full") })
    })));
    let mut answers = Vec::new();
    for chunk in vec![4u32, 5, 6, 7] {
        match inner.begin_write(chunk) {
            Ok(job) => {
                let mut sink = job.sink;
                let sent = sink.send(job.chunk).now_or_never().unwrap();
                answers.push(inner.finish_write(sink, sent));
            }
            Err(throw) => assert_eq!(throw, Throw::Spent),
        }
    }
    assert_eq!(answers, vec![Ok(()), Ok(()), Err("full")]);
    assert_eq!(*seen.borrow(), vec![4, 5, 6]);
    assert!(inner.close().is_err());
}

#[test]
fn write_shares_the_cell() {
    let cell = Rc::new(RefCell::new(1));
    let mut raw = IntoUnderlyingSink::new(cell.clone()).into_raw();
    let task = raw.write("chunk").unwrap();
    assert!(Rc::ptr_eq(&task.inner, &cell));
    assert_eq!(task.chunk, "chunk");
    assert!(raw.write("next").is_ok());
}

#[test]
fn callbacks_after_close_throw() {
    let cell = Rc::new(1u8);
    let mut raw = IntoUnderlyingSink::new(cell.clone()).into_raw();
    assert!(Rc::ptr_eq(&raw.close().unwrap(), &cell));
    assert_eq!(Rc::strong_count(&cell), 1);
    assert_eq!(raw.write(()).err(), Some(Throw::Released));
    assert_eq!(raw.close().err(), Some(Throw::Released));
    assert_eq!(raw.abort(()).err(), Some(Throw::Released));
}

#[test]
fn callbacks_after_abort_throw() {
    let cell = Rc::new(1u8);
    let mut raw = IntoUnderlyingSink::new(cell.clone()).into_raw();
    let task = raw.abort("reason").unwrap();
    assert!(Rc::ptr_eq(&task.inner, &cell));
    assert_eq!(task.reason, "reason");
    assert_eq!(raw.write(()).err(), Some(Throw::Released));
    assert_eq!(raw.close().err(), Some(Throw::Released));
}

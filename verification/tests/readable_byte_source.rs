use std::rc::Rc;

use futures_util::future::FutureExt;
use futures_util::io::AsyncReadExt;

use underlying_streams::readable::into_underlying_byte_source::{
    ByobRequest, Inner, IntoUnderlyingByteSource, PullAction, ReadableStreamType,
    UnderlyingByteSource,
};
use underlying_streams::throw::Throw;

/// Where the views of these requests start in their buffers.
const OFFSET: u32 = 32;

fn request(view_len: u32) -> Option<ByobRequest> {
    Some(ByobRequest { view_len: Some(view_len) })
}

#[test]
fn begin_takes_the_reader_and_zeroes_the_buffer() {
    let mut inner = Inner::new("reader");
    let job = inner.begin_pull(request(4)).unwrap();
    assert_eq!(job.reader, "reader");
    assert_eq!(job.request_len, 4);
    assert_eq!(inner.read_buffer(4).to_vec(), vec![0, 0, 0, 0]);
    assert_eq!(inner.begin_pull(request(4)).err(), Some(Throw::Spent));
}

#[test]
fn requests_without_buffer_throw_and_change_nothing() {
    let mut inner = Inner::new(1u8);
    assert_eq!(inner.begin_pull(None).err(), Some(Throw::NoByobRequest));
    let detached = Some(ByobRequest { view_len: None });
    assert_eq!(inner.begin_pull(detached).err(), Some(Throw::NoView));
    assert_eq!(inner.delivered(0).len(), 0);
    assert_eq!(inner.begin_pull(request(2)).unwrap().reader, 1);
}

#[test]
fn read_bytes_are_delivered() {
    let mut inner = Inner::new(1u8);
    let job = inner.begin_pull(request(4)).unwrap();
    inner.read_buffer(job.request_len)[..3].copy_from_slice(&[7, 8, 9]);
    let action = inner.finish_pull::<String>(job, OFFSET, Ok(3));
    assert_eq!(action, Ok(PullAction::Deliver { offset: OFFSET, len: 3 }));
    assert_eq!(inner.delivered(3).to_vec(), vec![7, 8, 9]);
    assert_eq!(inner.delivered(4).to_vec(), vec![7, 8, 9, 0]);
    assert_eq!(inner.begin_pull(request(1)).unwrap().reader, 1);
}

#[test]
fn buffer_grows_to_the_largest_request_and_keeps_its_bytes() {
    let mut inner = Inner::new(1u8);
    for view_len in vec![2u32, 5, 3] {
        let job = inner.begin_pull(request(view_len)).unwrap();
        inner.read_buffer(job.request_len)[0] = view_len as u8;
        inner.finish_pull::<String>(job, OFFSET, Ok(1)).unwrap();
    }
    assert_eq!(inner.delivered(5).to_vec(), vec![3, 0, 0, 0, 0]);
}

#[test]
fn end_of_input_drops_reader_and_buffer() {
    let mut inner = Inner::new(1u8);
    let job = inner.begin_pull(request(4)).unwrap();
    let action = inner.finish_pull::<u8>(job, OFFSET, Ok(0)).unwrap();
    assert_eq!(action, PullAction::Close);
    assert_eq!(inner.delivered(0).to_vec(), Vec::<u8>::new());
    let action = action.advance(Ok(()));
    assert_eq!(action, PullAction::Respond(0));
    assert_eq!(action.advance(Ok(())), PullAction::Done(Ok(())));
    // The buffer is made ready before the missing reader is noticed.
    assert_eq!(inner.begin_pull(request(3)).err(), Some(Throw::Spent));
    assert_eq!(inner.delivered(3).to_vec(), vec![0, 0, 0]);
}

#[test]
fn read_error_is_the_answer() {
    let mut inner = Inner::new(1u8);
    let job = inner.begin_pull(request(4)).unwrap();
    let action = inner.finish_pull(job, OFFSET, Err("broken".to_string()));
    assert_eq!(action, Ok(PullAction::Done(Err("broken".to_string()))));
    assert_eq!(inner.begin_pull(request(1)).err(), Some(Throw::Spent));
}

#[test]
fn interrupted_read_leaves_no_reader() {
    let mut inner = Inner::new(1u8);
    drop(inner.begin_pull(request(4)));
    assert_eq!(inner.begin_pull(request(4)).err(), Some(Throw::Spent));
}

#[test]
fn failed_calls_are_the_answer() {
    let close: PullAction<u8> = PullAction::Close;
    assert_eq!(close.advance(Err(1)), PullAction::Done(Err(1)));
    let deliver: PullAction<u8> = PullAction::Deliver { offset: 0, len: 4 };
    assert_eq!(deliver.advance(Err(2)), PullAction::Done(Err(2)));
    let respond: PullAction<u8> = PullAction::Respond(0);
    assert_eq!(respond.advance(Err(3)), PullAction::Done(Err(3)));
    let done: PullAction<u8> = PullAction::Done(Ok(()));
    assert_eq!(done.advance(Err(4)), PullAction::Done(Ok(())));
}

#[test]
fn real_reader_is_delivered_whole_and_closed_once() {
    let input: Vec<u8> = (0u8..10).collect();
    let mut inner = Inner::new(&input[..]);
    let mut output = Vec::new();
    let mut calls = Vec::new();
    for _ in 0..5 {
        let mut job = match inner.begin_pull(request(4)) {
            Ok(job) => job,
            Err(throw) => {
                assert_eq!(throw, Throw::Spent);
                continue;
            }
        };
        let outcome = job
            .reader
            .read(inner.read_buffer(job.request_len))
            .now_or_never()
            .unwrap()
            .map_err(|error| error.to_string());
        let mut action = inner.finish_pull(job, OFFSET, outcome).unwrap();
        loop {
            match &action {
                PullAction::Close => calls.push("close".to_string()),
                PullAction::Deliver { offset, len } => {
                    calls.push(format!("deliver {} at {}", len, offset));
                    output.extend_from_slice(inner.delivered(*len));
                }
                PullAction::Respond(len) => calls.push(format!("respond {}", len)),
                PullAction::Done(answer) => {
                    assert_eq!(*answer, Ok(()));
                    break;
                }
            }
            action = action.advance(Ok(()));
        }
    }
    assert_eq!(output, input);
    assert_eq!(
        calls,
        vec!["deliver 4 at 32", "deliver 4 at 32", "deliver 2 at 32", "close", "respond 0"]
    );
}

fn raw_source(len: usize) -> (Rc<u8>, UnderlyingByteSource<u8, &'static str>) {
    let cell = Rc::new(3u8);
    let raw = IntoUnderlyingByteSource::new(cell.clone(), len).into_raw();
    (cell, raw.ok().unwrap())
}

#[test]
fn into_raw_allocates_the_default_length() {
    let (_, raw) = raw_source(4096);
    assert_eq!(raw.auto_allocate_chunk_size(), 4096);
    assert_eq!(raw.stream_type(), ReadableStreamType::Bytes);
    let (_, raw) = raw_source(u32::MAX as usize);
    assert_eq!(raw.auto_allocate_chunk_size(), u32::MAX);
}

#[test]
fn into_raw_refuses_a_length_over_32_bits() {
    if let Some(len) = (u32::MAX as usize).checked_add(1) {
        let source = IntoUnderlyingByteSource::<u8, ()>::new(Rc::new(0), len);
        let refused = source.into_raw().err().unwrap();
        assert_eq!(refused.throw, Throw::TooLarge);
        assert!(refused.aborted.is_none());
    }
}

#[test]
fn refused_source_aborts_its_pull() {
    if let Some(len) = (u32::MAX as usize).checked_add(1) {
        let mut source = IntoUnderlyingByteSource::new(Rc::new(0u8), len);
        let registration = source.pull(()).registration.into_registration();
        assert!(!registration.handle().is_aborted());
        assert!(source.into_raw().err().unwrap().aborted.is_some());
        assert!(registration.handle().is_aborted());
    }
}

#[test]
fn accepted_source_keeps_its_pull() {
    let mut source = IntoUnderlyingByteSource::new(Rc::new(0u8), 8);
    let registration = source.pull(()).registration.into_registration();
    let mut raw = source.into_raw().ok().unwrap();
    assert!(!registration.handle().is_aborted());
    assert!(raw.cancel().is_some());
    assert!(registration.handle().is_aborted());
}

#[test]
fn count_over_32_bits_throws_and_keeps_the_reader() {
    if let Some(bytes_read) = (u32::MAX as usize).checked_add(1) {
        let mut inner = Inner::new(1u8);
        let mut job = inner.begin_pull(request(4)).unwrap();
        job.request_len = bytes_read;
        let action = inner.finish_pull::<u8>(job, OFFSET, Ok(bytes_read));
        assert_eq!(action, Err(Throw::TooLarge));
        assert_eq!(inner.begin_pull(request(4)).unwrap().reader, 1);
    }
}

#[test]
fn byte_callbacks_until_cancel() {
    let (cell, mut raw) = raw_source(16);
    assert_eq!(raw.start("controller"), Ok(()));
    let first = raw.pull("first").unwrap();
    assert!(Rc::ptr_eq(&first.inner, &cell));
    assert_eq!(first.controller, "first");
    drop(first.inner);
    let first = first.registration.into_registration();
    let second = raw.pull("second").unwrap();
    let replaced = second.replaced.unwrap();
    drop(second.inner);
    let second = second.registration.into_registration();
    assert_eq!(raw.start("again"), Ok(()));
    assert!(raw.cancel().is_some());
    assert!(!replaced.is_aborted());
    assert!(second.handle().is_aborted());
    assert!(!first.handle().is_aborted());
    assert_eq!(raw.start("late"), Err(Throw::Released));
    assert_eq!(raw.pull("late").err(), Some(Throw::Released));
    assert!(raw.cancel().is_none());
    assert_eq!(raw.auto_allocate_chunk_size(), 16);
    assert_eq!(Rc::strong_count(&cell), 1);
}

#[test]
fn dropping_the_byte_source_aborts_its_pull() {
    let mut source = IntoUnderlyingByteSource::new(Rc::new(0u8), 1);
    source.start('a');
    let registration = source.pull('b').registration.into_registration();
    assert!(source.drop().is_some());
    assert!(registration.handle().is_aborted());
    assert!(IntoUnderlyingByteSource::<u8, char>::new(Rc::new(0), 1).drop().is_none());
}

//! A byte reader behind a readable byte stream.
use std::rc::Rc;

use futures_util::future::AbortHandle;
use vstd::prelude::*;

use crate::abort::{new_pair, AbortedPull};
use crate::pull::{abort_pending, aborts, PullTask};
use crate::shared::share;
use crate::slot::{
    after_operations, put_back, take, taken, value_outlives_exactly_reusable_operations,
};
use crate::throw::Throw;
use crate::util::{cast_to_u32, checked_cast_to_u32, clamp_to_usize, clamped_to_usize};

verus! {

/// What a pull reads of the controller's BYOB request.
#[derive(Clone, Copy, Debug)]
pub struct ByobRequest {
    /// The length in bytes of the request's view, where the request still has
    /// one.
    pub view_len: Option<u32>,
}

/// The length that `request` asks for, or the reason to throw.
pub open spec fn requested(request: Option<ByobRequest>) -> Result<u32, Throw> {
    match request {
        None => Err(Throw::NoByobRequest),
        Some(request) => match request.view_len {
            None => Err(Throw::NoView),
            Some(view_len) => Ok(view_len),
        },
    }
}

/// A reader on its way to fill a request.
#[derive(Debug)]
pub struct ReadJob<R> {
    pub reader: R,
    /// How many bytes the reader may read at most.
    pub request_len: usize,
}

/// What a pull does next to the stream's controller or to its BYOB request.
#[derive(Debug, PartialEq, Eq)]
pub enum PullAction<E> {
    /// Close the controller.
    Close,
    /// Copy the first `len` read bytes to the buffer behind the request's view,
    /// from `offset` on, and respond to the request with their number.
    Deliver { offset: u32, len: u32 },
    /// Respond to the request with that number of bytes.
    Respond(u32),
    /// Nothing more: this is the pull's answer.
    Done(Result<(), E>),
}

impl<E> PullAction<E> {
    /// The action after this one, which came to `called`.
    pub open spec fn followed_by(self, called: Result<(), E>) -> Self {
        match self {
            PullAction::Close => match called {
                Ok(()) => PullAction::Respond(0),
                Err(error) => PullAction::Done(Err(error)),
            },
            PullAction::Deliver { .. } => PullAction::Done(called),
            PullAction::Respond(_) => PullAction::Done(called),
            PullAction::Done(answer) => PullAction::Done(answer),
        }
    }

    /// Goes on after the call that this action asks for came to `called`. A
    /// request is answered only once the controller has closed; a call that
    /// fails is the pull's answer.
    pub fn advance(self, called: Result<(), E>) -> (next: Self)
        ensures
            next == self.followed_by(called),
    {
        match self {
            PullAction::Close => match called {
                Ok(()) => PullAction::Respond(0),
                Err(error) => PullAction::Done(Err(error)),
            },
            PullAction::Deliver { .. } => PullAction::Done(called),
            PullAction::Respond(_) => PullAction::Done(called),
            PullAction::Done(answer) => PullAction::Done(answer),
        }
    }
}

/// The state of an `Inner`.
#[verifier::ext_equal]
pub struct InnerView<R> {
    pub reader: Option<R>,
    pub buffer: Seq<u8>,
}

/// `buffer`, with zeros behind it up to a length of `len`.
pub open spec fn grown(buffer: Seq<u8>, len: nat) -> Seq<u8> {
    if buffer.len() < len {
        buffer + Seq::new((len - buffer.len()) as nat, |i: int| 0u8)
    } else {
        buffer
    }
}

impl<R> InnerView<R> {
    /// The state once a pull for `request` has begun.
    pub open spec fn begun(self, request: Option<ByobRequest>) -> Self {
        match requested(request) {
            Ok(view_len) => InnerView { reader: None, buffer: grown(self.buffer, view_len as nat) },
            Err(_) => self,
        }
    }

    /// What beginning a pull for `request` comes to.
    pub open spec fn job(self, request: Option<ByobRequest>) -> Result<ReadJob<R>, Throw> {
        match requested(request) {
            Ok(view_len) => match taken(self.reader) {
                Ok(reader) => Ok(ReadJob { reader, request_len: clamped_to_usize(view_len) }),
                Err(throw) => Err(throw),
            },
            Err(throw) => Err(throw),
        }
    }

    /// The state once the first `request_len` bytes of the buffer, lent to the
    /// reader, have become `written`.
    pub open spec fn read_into(self, request_len: usize, written: Seq<u8>) -> Self {
        InnerView {
            reader: self.reader,
            buffer: written + self.buffer.subrange(request_len as int, self.buffer.len() as int),
        }
    }

    /// The state once the read of `job` has come to `outcome`.
    pub open spec fn finished<E>(self, job: ReadJob<R>, outcome: Result<usize, E>) -> Self {
        let reusable = reads_on(outcome);
        InnerView {
            reader: put_back(self.reader, job.reader, reusable),
            buffer: if reusable {
                self.buffer
            } else {
                Seq::empty()
            },
        }
    }
}

/// Whether a reader whose read came to `outcome` may be read from again.
pub open spec fn reads_on<E>(outcome: Result<usize, E>) -> bool {
    outcome matches Ok(bytes_read) && bytes_read > 0
}

/// What to do once a read has come to `outcome`, for a view that starts at
/// `byte_offset` of its buffer.
pub open spec fn read_action<E>(byte_offset: u32, outcome: Result<usize, E>) -> Result<
    PullAction<E>,
    Throw,
> {
    match outcome {
        Ok(bytes_read) => if bytes_read == 0 {
            Ok(PullAction::Close)
        } else {
            match cast_to_u32(bytes_read) {
                Ok(len) => Ok(PullAction::Deliver { offset: byte_offset, len }),
                Err(throw) => Err(throw),
            }
        },
        Err(error) => Ok(PullAction::Done(Err(error))),
    }
}

/// The reader and its buffer.
pub struct Inner<R> {
    reader: Option<R>,
    buffer: Vec<u8>,
}

impl<R> View for Inner<R> {
    type V = InnerView<R>;

    closed spec fn view(&self) -> InnerView<R> {
        InnerView { reader: self.reader, buffer: self.buffer@ }
    }
}

impl<R> Inner<R> {
    /// Starts with the reader in place and an empty buffer.
    pub fn new(reader: R) -> (inner: Self)
        ensures
            inner@ == (InnerView { reader: Some(reader), buffer: Seq::empty() }),
    {
        Inner { reader: Some(reader), buffer: Vec::new() }
    }

    /// Begins a pull: makes the buffer as long as the request's view, and takes
    /// the reader out. The reader is gone from here on unless `finish_pull`
    /// puts it back, so a read that is cut short leaves nothing to be reused.
    pub fn begin_pull(&mut self, request: Option<ByobRequest>) -> (job: Result<ReadJob<R>, Throw>)
        ensures
            final(self)@ == old(self)@.begun(request),
            job == old(self)@.job(request),
            job is Ok ==> job->Ok_0.request_len <= final(self)@.buffer.len(),
            request is None ==> job == Err::<ReadJob<R>, Throw>(Throw::NoByobRequest),
            request matches Some(byob) && byob.view_len is None ==> job == Err::<
                ReadJob<R>,
                Throw,
            >(Throw::NoView),
            request matches Some(byob) && byob.view_len is Some && old(self)@.reader is None
                ==> job == Err::<ReadJob<R>, Throw>(Throw::Spent),
            request matches Some(byob) ==> (byob.view_len is Some && old(self)@.reader is Some
                ==> job is Ok && job->Ok_0.reader == old(self)@.reader->0
                && job->Ok_0.request_len as int == byob.view_len->0 as int),
            request matches Some(byob) && byob.view_len is Some ==> final(self)@.reader is None,
    {
        let request: ByobRequest = match request {
            Some(request) => request,
            None => return Err(Throw::NoByobRequest),
        };
        let view_len: u32 = match request.view_len {
            Some(view_len) => view_len,
            None => return Err(Throw::NoView),
        };
        let request_len: usize = clamp_to_usize(view_len);
        let ghost before = self.buffer@;
        if self.buffer.len() < request_len {
            self.buffer.resize(request_len, 0);
            assert forall|i: int| 0 <= i < before.len() implies self.buffer@[i] == before[i] by {
                assert(self.buffer@.subrange(0, before.len() as int)[i] == self.buffer@[i]);
            }
        }
        assert(self.buffer@ =~= grown(before, view_len as nat));
        match take(&mut self.reader) {
            Ok(reader) => Ok(ReadJob { reader, request_len }),
            Err(throw) => Err(throw),
        }
    }

    /// Lends the first `request_len` bytes of the buffer to the reader.
    pub fn read_buffer(&mut self, request_len: usize) -> (lent: &mut [u8])
        requires
            request_len <= old(self)@.buffer.len(),
        ensures
            lent@ == old(self)@.buffer.subrange(0, request_len as int),
            final(self)@ == old(self)@.read_into(request_len, final(lent)@),
            final(self)@.reader == old(self)@.reader,
            final(self)@.buffer == final(lent)@ + old(self)@.buffer.subrange(
                request_len as int,
                old(self)@.buffer.len() as int,
            ),
    {
        let (lent, _) = self.buffer.as_mut_slice().split_at_mut(request_len);
        lent
    }

    /// Finishes a pull, the read of which came to `outcome`. Where bytes were
    /// read, the reader is put back, and the bytes go to the start of the
    /// request's view, which is at `byte_offset` of its buffer. At the end of
    /// the input, and after an error, the reader and the buffer are dropped.
    ///
    /// A reader must not claim more bytes than were lent to it.
    pub fn finish_pull<E>(
        &mut self,
        job: ReadJob<R>,
        byte_offset: u32,
        outcome: Result<usize, E>,
    ) -> (action: Result<PullAction<E>, Throw>)
        requires
            outcome matches Ok(bytes_read) ==> bytes_read <= job.request_len,
        ensures
            final(self)@ == old(self)@.finished(job, outcome),
            action == read_action(byte_offset, outcome),
            action matches Ok(PullAction::Deliver { offset, len }) ==> offset == byte_offset
                && len <= job.request_len,
            outcome matches Ok(bytes_read) && bytes_read > 0 ==> final(self)@ == (InnerView {
                reader: Some(job.reader),
                buffer: old(self)@.buffer,
            }),
            outcome matches Ok(bytes_read) ==> (0 < bytes_read <= u32::MAX ==> action == Ok::<
                PullAction<E>,
                Throw,
            >(PullAction::Deliver { offset: byte_offset, len: bytes_read as u32 })),
            outcome matches Ok(bytes_read) && bytes_read == 0 ==> action == Ok::<
                PullAction<E>,
                Throw,
            >(PullAction::Close),
            outcome matches Err(error) ==> action == Ok::<PullAction<E>, Throw>(
                PullAction::Done(Err(error)),
            ),
            (outcome is Err || outcome->Ok_0 == 0) ==> final(self)@ == (InnerView {
                reader: old(self)@.reader,
                buffer: Seq::empty(),
            }),
    {
        match outcome {
            Ok(bytes_read) => {
                if bytes_read == 0 {
                    self.buffer = Vec::new();
                    Ok(PullAction::Close)
                } else {
                    self.reader = Some(job.reader);
                    match checked_cast_to_u32(bytes_read) {
                        Ok(len) => Ok(PullAction::Deliver { offset: byte_offset, len }),
                        Err(throw) => Err(throw),
                    }
                }
            },
            Err(error) => {
                self.buffer = Vec::new();
                Ok(PullAction::Done(Err(error)))
            },
        }
    }

    /// The bytes that a pull delivers: the first `len` of the buffer.
    pub fn delivered(&self, len: u32) -> (bytes: &[u8])
        requires
            len <= self@.buffer.len(),
        ensures
            bytes@ == self@.buffer.subrange(0, len as int),
    {
        let (bytes, _) = self.buffer.as_slice().split_at(clamp_to_usize(len));
        bytes
    }
}

/// The state of an `IntoUnderlyingByteSource`.
pub struct ByteSourceView<C, K> {
    pub inner: Rc<C>,
    pub default_buffer_len: usize,
    pub controller: Option<K>,
    pub pull_handle: Option<AbortHandle>,
}

impl<C, K> ByteSourceView<C, K> {
    /// The state with `controller` kept.
    pub open spec fn started(self, controller: K) -> Self {
        ByteSourceView { controller: Some(controller), ..self }
    }

    /// The state with a pull registered that `handle` aborts.
    pub open spec fn pulled(self, handle: AbortHandle) -> Self {
        ByteSourceView { pull_handle: Some(handle), ..self }
    }
}

/// A byte reader made ready to stand behind a readable byte stream.
///
/// `C` is the cell through which the stream's callbacks and its pending pull
/// share the `Inner`, `K` the stream's controller.
///
/// The pending pull is aborted by `drop` (and so by a refusing `into_raw`) and
/// by the `cancel` of the callbacks, and by nothing else: a source that merely
/// goes out of scope leaves it running.
pub struct IntoUnderlyingByteSource<C, K> {
    inner: Rc<C>,
    default_buffer_len: usize,
    controller: Option<K>,
    pull_handle: Option<AbortHandle>,
}

impl<C, K> View for IntoUnderlyingByteSource<C, K> {
    type V = ByteSourceView<C, K>;

    closed spec fn view(&self) -> ByteSourceView<C, K> {
        ByteSourceView {
            inner: self.inner,
            default_buffer_len: self.default_buffer_len,
            controller: self.controller,
            pull_handle: self.pull_handle,
        }
    }
}

/// What is left of a source that cannot stand behind a byte stream.
pub struct RefusedSource {
    /// Why it cannot.
    pub throw: Throw,
    /// The pull that was pending, aborted.
    pub aborted: Option<AbortedPull>,
}

impl<C, K> IntoUnderlyingByteSource<C, K> {
    /// Makes a source with no controller and no pending pull.
    pub fn new(inner: Rc<C>, default_buffer_len: usize) -> (source: Self)
        ensures
            source@ == (ByteSourceView {
                inner,
                default_buffer_len,
                controller: None::<K>,
                pull_handle: None,
            }),
    {
        IntoUnderlyingByteSource { inner, default_buffer_len, controller: None, pull_handle: None }
    }

    /// Turns the source into the callbacks of a byte stream, which allocates
    /// chunks of the default buffer length. Throws where that length is too
    /// large for a typed array; the source is then dropped, and with it the
    /// pull that was last registered is aborted.
    pub fn into_raw(self) -> (raw: Result<UnderlyingByteSource<C, K>, RefusedSource>)
        ensures
            match cast_to_u32(self@.default_buffer_len) {
                Ok(len) => raw matches Ok(raw) && raw@ == (UnderlyingByteSourceView {
                    auto_allocate_chunk_size: len,
                    source: Some(self@),
                }),
                Err(throw) => raw matches Err(refused) && refused.throw == throw && aborts(
                    refused.aborted,
                    self@.pull_handle,
                ),
            },
            raw is Ok <==> self@.default_buffer_len <= u32::MAX,
            raw matches Ok(raw) ==> raw@.auto_allocate_chunk_size as int
                == self@.default_buffer_len as int && raw@.source == Some(self@),
            raw matches Err(refused) ==> {
                &&& refused.throw == Throw::TooLarge
                &&& refused.aborted is Some <==> self@.pull_handle is Some
                &&& refused.aborted matches Some(pull) ==> self@.pull_handle == Some(pull.handle())
            },
    {
        match checked_cast_to_u32(self.default_buffer_len) {
            Ok(len) => Ok(
                UnderlyingByteSource { auto_allocate_chunk_size: len, source: Some(self) },
            ),
            Err(throw) => Err(RefusedSource { throw, aborted: self.drop() }),
        }
    }

    /// Keeps the stream's controller.
    pub fn start(&mut self, controller: K)
        ensures
            final(self)@ == old(self)@.started(controller),
    {
        self.controller = Some(controller);
    }

    /// Registers a new pull. From here on it is this pull that dropping the
    /// source aborts. The handle of the pull before it is replaced, not aborted.
    pub fn pull(&mut self, controller: K) -> (task: PullTask<C, K>)
        ensures
            task.inner == old(self)@.inner,
            task.controller == controller,
            task.replaced == old(self)@.pull_handle,
            final(self)@ == old(self)@.pulled(task.registration.handle()),
    {
        let inner = share(&self.inner);
        let (handle, registration) = new_pair();
        let replaced = self.pull_handle.take();
        self.pull_handle = Some(handle);
        PullTask { inner, controller, registration, replaced }
    }

    /// Gives the source up, and aborts the pull that was last registered.
    pub fn drop(self) -> (aborted: Option<AbortedPull>)
        ensures
            aborts(aborted, self@.pull_handle),
            aborted is Some <==> self@.pull_handle is Some,
            aborted matches Some(pull) ==> self@.pull_handle == Some(pull.handle()),
    {
        abort_pending(self.pull_handle)
    }
}

/// What kind of readable stream the callbacks are for.
#[derive(Clone, Copy, Debug, PartialEq, Eq, Structural)]
pub enum ReadableStreamType {
    Bytes,
}

/// The state of an `UnderlyingByteSource`.
pub struct UnderlyingByteSourceView<C, K> {
    pub auto_allocate_chunk_size: u32,
    pub source: Option<ByteSourceView<C, K>>,
}

/// A call of one of the callbacks.
pub enum Callback<K> {
    Start(K),
    /// A pull, and the handle that aborts it.
    Pull(AbortHandle),
    Cancel,
}

impl<C, K> UnderlyingByteSourceView<C, K> {
    /// The handle of the pull that is aborted if the source is given up now.
    pub open spec fn pending(self) -> Option<AbortHandle> {
        match self.source {
            Some(source) => source.pull_handle,
            None => None,
        }
    }

    /// The state after one callback. Without a source, nothing changes it.
    pub open spec fn after(self, callback: Callback<K>) -> Self {
        UnderlyingByteSourceView {
            source: match self.source {
                Some(source) => match callback {
                    Callback::Start(controller) => Some(source.started(controller)),
                    Callback::Pull(handle) => Some(source.pulled(handle)),
                    Callback::Cancel => None,
                },
                None => None,
            },
            ..self
        }
    }

    /// The state after the given callbacks, in order.
    pub open spec fn after_all(self, callbacks: Seq<Callback<K>>) -> Self
        decreases callbacks.len(),
    {
        if callbacks.len() == 0 {
            self
        } else {
            self.after_all(callbacks.drop_last()).after(callbacks.last())
        }
    }
}

/// The callbacks of a readable byte stream. The source behind them is there
/// until the stream is cancelled.
pub struct UnderlyingByteSource<C, K> {
    auto_allocate_chunk_size: u32,
    source: Option<IntoUnderlyingByteSource<C, K>>,
}

impl<C, K> View for UnderlyingByteSource<C, K> {
    type V = UnderlyingByteSourceView<C, K>;

    closed spec fn view(&self) -> UnderlyingByteSourceView<C, K> {
        UnderlyingByteSourceView {
            auto_allocate_chunk_size: self.auto_allocate_chunk_size,
            source: match self.source {
                Some(source) => Some(source@),
                None => None,
            },
        }
    }
}

impl<C, K> UnderlyingByteSource<C, K> {
    /// The stream is a byte stream.
    pub fn stream_type(&self) -> (stream_type: ReadableStreamType)
        ensures
            stream_type == ReadableStreamType::Bytes,
    {
        ReadableStreamType::Bytes
    }

    /// How many bytes the stream allocates for a pull that brings no buffer of
    /// its own, so that there is a BYOB request in any case.
    pub fn auto_allocate_chunk_size(&self) -> (size: u32)
        ensures
            size == self@.auto_allocate_chunk_size,
    {
        self.auto_allocate_chunk_size
    }

    /// The `start` callback.
    pub fn start(&mut self, controller: K) -> (started: Result<(), Throw>)
        ensures
            final(self)@ == old(self)@.after(Callback::Start(controller)),
            started == (if old(self)@.source is Some {
                Ok::<(), Throw>(())
            } else {
                Err(Throw::Released)
            }),
    {
        match self.source.as_mut() {
            Some(source) => {
                source.start(controller);
                Ok(())
            },
            None => Err(Throw::Released),
        }
    }

    /// The `pull` callback.
    pub fn pull(&mut self, controller: K) -> (task: Result<PullTask<C, K>, Throw>)
        ensures
            match old(self)@.source {
                Some(source) => {
                    &&& task matches Ok(task)
                    &&& task.inner == source.inner
                    &&& task.controller == controller
                    &&& task.replaced == source.pull_handle
                    &&& final(self)@ == old(self)@.after(Callback::Pull(task.registration.handle()))
                },
                None => {
                    &&& task == Err::<PullTask<C, K>, Throw>(Throw::Released)
                    &&& final(self)@ == old(self)@
                },
            },
    {
        match self.source.as_mut() {
            Some(source) => Ok(source.pull(controller)),
            None => Err(Throw::Released),
        }
    }

    /// The `cancel` callback: gives the source up, with the pull that is
    /// pending. Cancelling once more does nothing.
    pub fn cancel(&mut self) -> (aborted: Option<AbortedPull>)
        ensures
            final(self)@ == old(self)@.after(Callback::Cancel),
            final(self)@.source is None,
            aborts(aborted, old(self)@.pending()),
            aborted is Some <==> (old(self)@.source matches Some(source)
                && source.pull_handle is Some),
            aborted matches Some(pull) ==> old(self)@.source->0.pull_handle == Some(pull.handle()),
    {
        match self.source.take() {
            Some(source) => source.drop(),
            None => None,
        }
    }
}

/// One whole pull of an `Inner`.
pub struct Pull<E> {
    pub request: Option<ByobRequest>,
    /// What the reader left in the bytes that were lent to it.
    pub written: Seq<u8>,
    /// What the read came to, unless it was cut short.
    pub outcome: Option<Result<usize, E>>,
    /// Where the request's view starts in its buffer, once the read is over.
    pub byte_offset: u32,
    /// What the first call that the pull makes comes to, if it makes one.
    pub called: Result<(), E>,
}

impl<E> Pull<E> {
    /// The length of the request's view, if there is a request that has one.
    pub open spec fn view(self) -> Option<u32> {
        match self.request {
            Some(request) => request.view_len,
            None => None,
        }
    }

    /// Whether the reader, if it was there before the pull, still is after it.
    pub open spec fn keeps_reader(self) -> bool {
        self.view() is Some ==> (self.outcome matches Some(Ok(bytes_read)) && bytes_read > 0)
    }

    /// The length of the request's view, or 0.
    pub open spec fn view_len(self) -> nat {
        match self.view() {
            Some(view_len) => view_len as nat,
            None => 0,
        }
    }

    /// A reader fills what was lent to it, and claims no more than that.
    pub open spec fn well_formed(self) -> bool {
        &&& self.written.len() == self.view_len()
        &&& self.outcome matches Some(Ok(bytes_read)) ==> bytes_read <= self.view_len()
    }
}

impl<R> InnerView<R> {
    /// The state after one whole pull.
    pub open spec fn after<E>(self, pull: Pull<E>) -> Self {
        match self.job(pull.request) {
            Ok(job) => {
                let read = self.begun(pull.request).read_into(job.request_len, pull.written);
                match pull.outcome {
                    Some(outcome) => read.finished(job, outcome),
                    None => read,
                }
            },
            Err(_) => self.begun(pull.request),
        }
    }

    /// The state after the given pulls, in order.
    pub open spec fn after_all<E>(self, pulls: Seq<Pull<E>>) -> Self
        decreases pulls.len(),
    {
        if pulls.len() == 0 {
            self
        } else {
            self.after_all(pulls.drop_last()).after(pulls.last())
        }
    }
}

impl<R> InnerView<R> {
    /// What one whole pull asks for once its read is over, if it gets there.
    pub open spec fn asks<E>(self, pull: Pull<E>) -> Option<PullAction<E>> {
        match (self.job(pull.request), pull.outcome) {
            (Ok(_), Some(outcome)) => match read_action(pull.byte_offset, outcome) {
                Ok(action) => Some(action),
                Err(_) => None,
            },
            _ => None,
        }
    }

    /// The calls that one whole pull makes, in order.
    pub open spec fn calls<E>(self, pull: Pull<E>) -> Seq<PullAction<E>> {
        match self.asks(pull) {
            Some(first) => if first is Done {
                Seq::empty()
            } else if first.followed_by(pull.called) is Done {
                seq![first]
            } else {
                seq![first, first.followed_by(pull.called)]
            },
            None => Seq::empty(),
        }
    }

    /// The calls that the given pulls make, in order.
    pub open spec fn calls_all<E>(self, pulls: Seq<Pull<E>>) -> Seq<PullAction<E>>
        decreases pulls.len(),
    {
        if pulls.len() == 0 {
            Seq::empty()
        } else {
            self.calls_all(pulls.drop_last()) + self.after_all(pulls.drop_last()).calls(
                pulls.last(),
            )
        }
    }

    /// The bytes that one whole pull delivers to the stream.
    pub open spec fn delivers<E>(self, pull: Pull<E>) -> Seq<u8> {
        match self.asks(pull) {
            Some(PullAction::Deliver { len, .. }) => self.after(pull).buffer.subrange(
                0,
                len as int,
            ),
            _ => Seq::empty(),
        }
    }

    /// The bytes that the given pulls deliver to the stream, in order.
    pub open spec fn delivers_all<E>(self, pulls: Seq<Pull<E>>) -> Seq<u8>
        decreases pulls.len(),
    {
        if pulls.len() == 0 {
            Seq::empty()
        } else {
            self.delivers_all(pulls.drop_last()) + self.after_all(pulls.drop_last()).delivers(
                pulls.last(),
            )
        }
    }
}

/// The bytes that the reader read in `pull`.
pub open spec fn bytes_of<E>(pull: Pull<E>) -> Seq<u8> {
    match (pull.view(), pull.outcome) {
        (Some(_), Some(Ok(bytes_read))) => pull.written.subrange(0, bytes_read as int),
        _ => Seq::empty(),
    }
}

/// The bytes that the reader read in `pulls`, in order.
pub open spec fn all_bytes_of<E>(pulls: Seq<Pull<E>>) -> Seq<u8>
    decreases pulls.len(),
{
    if pulls.len() == 0 {
        Seq::empty()
    } else {
        all_bytes_of(pulls.drop_last()) + bytes_of(pulls.last())
    }
}

/// The deliveries of `pulls`, in order: one for each pull that read, of what it
/// read, to where its view starts.
pub open spec fn deliveries_of<E>(pulls: Seq<Pull<E>>) -> Seq<PullAction<E>>
    decreases pulls.len(),
{
    if pulls.len() == 0 {
        Seq::empty()
    } else {
        deliveries_of(pulls.drop_last()) + match (pulls.last().view(), pulls.last().outcome) {
            (Some(_), Some(Ok(bytes_read))) => seq![
                PullAction::Deliver {
                    offset: pulls.last().byte_offset,
                    len: bytes_read as u32,
                },
            ],
            _ => Seq::empty(),
        }
    }
}

/// The calls of a pull that loses the reader: at the end of the input, one that
/// closes the controller and, where that succeeds, one that responds to the
/// request with no bytes; otherwise none.
pub open spec fn last_calls<E>(pull: Pull<E>) -> Seq<PullAction<E>> {
    match pull.outcome {
        Some(Ok(_)) => if pull.called is Ok {
            seq![PullAction::Close, PullAction::Respond(0)]
        } else {
            seq![PullAction::Close]
        },
        _ => Seq::empty(),
    }
}

/// `len`, or the largest length that `pulls` ask for where that is larger.
pub open spec fn largest_view<E>(len: nat, pulls: Seq<Pull<E>>) -> nat
    decreases pulls.len(),
{
    if pulls.len() == 0 {
        len
    } else {
        let before = largest_view(len, pulls.drop_last());
        let last = pulls.last().view_len();
        if before < last {
            last
        } else {
            before
        }
    }
}

/// The reader outlives a sequence of pulls exactly where each of them either
/// asked for nothing or read at least one byte: after the end of the input, an
/// error, or a read that was cut short, it is gone for good. It is handled as
/// any other value that is taken out of its slot and put back.
pub proof fn reader_outlives_exactly_successful_pulls<R, E>(
    state: InnerView<R>,
    pulls: Seq<Pull<E>>,
)
    ensures
        state.after_all(pulls).reader == after_operations(
            state.reader,
            pulls.map_values(|pull: Pull<E>| pull.keeps_reader()),
        ),
        state.after_all(pulls).reader == (if forall|i: int|
            0 <= i < pulls.len() ==> (#[trigger] pulls[i]).keeps_reader() {
            state.reader
        } else {
            None
        }),
    decreases pulls.len(),
{
    let keeps = |pull: Pull<E>| pull.keeps_reader();
    let kept = pulls.map_values(keeps);
    if pulls.len() > 0 {
        reader_outlives_exactly_successful_pulls(state, pulls.drop_last());
        assert(kept.drop_last() =~= pulls.drop_last().map_values(keeps));
        assert(kept.last() == pulls.last().keeps_reader());
    }
    value_outlives_exactly_reusable_operations(state.reader, kept);
    if forall|i: int| 0 <= i < pulls.len() ==> (#[trigger] pulls[i]).keeps_reader() {
        assert forall|i: int| 0 <= i < kept.len() implies kept[i] by {
            assert(pulls[i].keeps_reader());
        }
    } else {
        let i = choose|i: int| 0 <= i < pulls.len() && !(#[trigger] pulls[i]).keeps_reader();
        assert(!kept[i]);
    }
}

/// Once the reader is gone, every pull throws.
pub proof fn pulls_without_reader_throw<R, E>(
    state: InnerView<R>,
    pulls: Seq<Pull<E>>,
    request: Option<ByobRequest>,
)
    requires
        state.reader is None,
    ensures
        state.after_all(pulls).job(request) is Err,
        (request matches Some(byob) && byob.view_len is Some) ==> state.after_all(pulls).job(
            request,
        ) == Err::<ReadJob<R>, Throw>(Throw::Spent),
{
    reader_outlives_exactly_successful_pulls(state, pulls);
}

/// As long as the reader is there, the buffer is as long as the largest request
/// so far: it grows where a request needs it to, and never shrinks.
pub proof fn buffer_fits_largest_request<R, E>(state: InnerView<R>, pulls: Seq<Pull<E>>)
    requires
        forall|i: int| 0 <= i < pulls.len() ==> (#[trigger] pulls[i]).well_formed(),
        state.after_all(pulls).reader is Some,
    ensures
        state.after_all(pulls).buffer.len() == largest_view(state.buffer.len(), pulls),
    decreases pulls.len(),
{
    if pulls.len() > 0 {
        let before = pulls.drop_last();
        assert forall|i: int| 0 <= i < before.len() implies (
        #[trigger] before[i]).well_formed() by {
            assert(pulls[i].well_formed());
        }
        assert(pulls[pulls.len() - 1].well_formed());
        buffer_fits_largest_request(state, before);
    }
}

/// A pull that reads delivers exactly what the reader wrote, to the start of the
/// request's view, and responds with as many bytes as it read; the count always
/// fits in 32 bits.
pub proof fn pull_delivers_what_was_read<R, E>(
    state: InnerView<R>,
    pull: Pull<E>,
    bytes_read: usize,
)
    requires
        state.reader is Some,
        pull.view() is Some,
        pull.well_formed(),
        pull.outcome == Some(Ok::<usize, E>(bytes_read)),
        bytes_read > 0,
    ensures
        state.asks(pull) == Some(
            PullAction::<E>::Deliver { offset: pull.byte_offset, len: bytes_read as u32 },
        ),
        bytes_read as u32 as int == bytes_read as int,
        state.delivers(pull) == pull.written.subrange(0, bytes_read as int),
        state.after(pull).reader == state.reader,
{
    assert(state.delivers(pull) =~= pull.written.subrange(0, bytes_read as int));
}

/// Over any sequence of pulls, the stream gets every byte that the reader read,
/// once and in order, up to the first pull that loses the reader, and nothing
/// from then on.
pub proof fn bytes_are_delivered_once_and_in_order<R, E>(
    state: InnerView<R>,
    live: Seq<Pull<E>>,
    rest: Seq<Pull<E>>,
)
    requires
        state.reader is Some,
        forall|i: int|
            0 <= i < live.len() ==> (#[trigger] live[i]).keeps_reader() && live[i].well_formed(),
        rest.len() > 0 ==> !rest[0].keeps_reader(),
    ensures
        state.delivers_all(live + rest) == all_bytes_of(live),
    decreases live.len() + rest.len(),
{
    let pulls = live + rest;
    if rest.len() > 0 {
        let before = live + rest.drop_last();
        bytes_are_delivered_once_and_in_order(state, live, rest.drop_last());
        assert(pulls.drop_last() =~= before);
        reader_outlives_exactly_successful_pulls(state, before);
        if rest.len() > 1 {
            assert(!before[live.len() as int].keeps_reader());
        }
        assert(state.after_all(before).delivers(pulls.last()) =~= Seq::empty());
        assert(state.delivers_all(pulls) =~= state.delivers_all(before));
    } else if live.len() > 0 {
        let before = live.drop_last();
        assert forall|i: int| 0 <= i < before.len() implies (#[trigger] before[i]).keeps_reader()
            && before[i].well_formed() by {
            assert(live[i].keeps_reader());
        }
        bytes_are_delivered_once_and_in_order(state, before, rest);
        assert(before + rest =~= before);
        assert(pulls =~= live);
        reader_outlives_exactly_successful_pulls(state, before);
        let last = live[live.len() - 1];
        assert(last.keeps_reader() && last.well_formed());
        let reached = state.after_all(before);
        if let (Some(_), Some(Ok(bytes_read))) = (last.view(), last.outcome) {
            pull_delivers_what_was_read(reached, last, bytes_read);
        }
        assert(reached.delivers(last) =~= bytes_of(last));
    } else {
        assert(pulls =~= Seq::empty());
    }
}

/// Over any sequence of pulls, the calls are one delivery for each pull that
/// read, in order, and at the end of the input the closing of the controller
/// and the response with no bytes. So the controller is closed at most once,
/// after the last delivery, by the first pull that finds the end of the input,
/// and by no pull after an error or one that was cut short.
pub proof fn controller_is_closed_once_at_the_end<R, E>(
    state: InnerView<R>,
    live: Seq<Pull<E>>,
    rest: Seq<Pull<E>>,
)
    requires
        state.reader is Some,
        forall|i: int|
            0 <= i < live.len() ==> (#[trigger] live[i]).keeps_reader() && live[i].well_formed(),
        rest.len() > 0 ==> !rest[0].keeps_reader(),
    ensures
        state.calls_all(live + rest) == deliveries_of(live) + (if rest.len() > 0 {
            last_calls(rest[0])
        } else {
            Seq::empty()
        }),
    decreases live.len() + rest.len(),
{
    let pulls = live + rest;
    if rest.len() > 0 {
        let before = live + rest.drop_last();
        controller_is_closed_once_at_the_end(state, live, rest.drop_last());
        assert(pulls.drop_last() =~= before);
        reader_outlives_exactly_successful_pulls(state, before);
        let reached = state.after_all(before);
        if rest.len() > 1 {
            assert(!before[live.len() as int].keeps_reader());
            assert(reached.calls(pulls.last()) =~= Seq::empty());
        } else {
            assert(reached.calls(rest[0]) =~= last_calls(rest[0]));
        }
        assert(state.calls_all(pulls) =~= deliveries_of(live) + last_calls(rest[0]));
    } else if live.len() > 0 {
        let before = live.drop_last();
        assert forall|i: int| 0 <= i < before.len() implies (#[trigger] before[i]).keeps_reader()
            && before[i].well_formed() by {
            assert(live[i].keeps_reader());
        }
        controller_is_closed_once_at_the_end(state, before, rest);
        assert(before + rest =~= before);
        assert(pulls =~= live);
        reader_outlives_exactly_successful_pulls(state, before);
        let last = live[live.len() - 1];
        assert(last.keeps_reader() && last.well_formed());
        if let (Some(_), Some(Ok(bytes_read))) = (last.view(), last.outcome) {
            pull_delivers_what_was_read(state.after_all(before), last, bytes_read);
        }
        assert(state.calls_all(pulls) =~= deliveries_of(live));
    } else {
        assert(pulls =~= Seq::empty());
    }
}

/// A pull at the end of the input closes the controller and, once that has
/// succeeded, responds to the request with no bytes; nothing is kept.
pub proof fn pull_at_end_closes_and_responds<R, E>(state: InnerView<R>, pull: Pull<E>)
    requires
        state.reader is Some,
        pull.view() is Some,
        pull.outcome == Some(Ok::<usize, E>(0)),
    ensures
        state.asks(pull) == Some(PullAction::<E>::Close),
        state.calls(pull) == last_calls(pull),
        state.after(pull) == (InnerView { reader: None::<R>, buffer: Seq::empty() }),
{
    assert(state.calls(pull) =~= last_calls(pull));
}

/// A pull whose read fails is answered with the reader's error, with no call
/// made; nothing is kept.
pub proof fn pull_that_fails_keeps_nothing<R, E>(state: InnerView<R>, pull: Pull<E>, error: E)
    requires
        state.reader is Some,
        pull.view() is Some,
        pull.outcome == Some(Err::<usize, E>(error)),
    ensures
        state.asks(pull) == Some(PullAction::Done(Err(error))),
        state.calls(pull) == Seq::<PullAction<E>>::empty(),
        state.after(pull) == (InnerView { reader: None::<R>, buffer: Seq::empty() }),
{
}

/// Every pull that does not throw comes to its answer after at most two calls:
/// the error of the reader; what the call came to that delivered the bytes; or,
/// at the end of the input, the error of closing the controller, and else what
/// responding to the request came to.
pub proof fn every_pull_is_answered<E>(
    byte_offset: u32,
    outcome: Result<usize, E>,
    first: Result<(), E>,
    second: Result<(), E>,
)
    ensures
        read_action(byte_offset, outcome) matches Ok(action) ==> action.followed_by(
            first,
        ).followed_by(second) == PullAction::Done(
            match outcome {
                Err(error) => Err(error),
                Ok(bytes_read) => if bytes_read > 0 {
                    first
                } else {
                    match first {
                        Err(error) => Err(error),
                        Ok(_) => second,
                    }
                },
            },
        ),
{
}

/// The source is there until the first cancellation and never again after it,
/// and it keeps its inner cell and its default buffer length all the time.
pub proof fn source_is_released_exactly_by_cancel<C, K>(
    state: UnderlyingByteSourceView<C, K>,
    callbacks: Seq<Callback<K>>,
)
    ensures
        state.after_all(callbacks).source is Some <==> state.source is Some && (forall|i: int|
            0 <= i < callbacks.len() ==> !(#[trigger] callbacks[i] is Cancel)),
        state.after_all(callbacks).source matches Some(source) ==> {
            &&& source.inner == state.source->0.inner
            &&& source.default_buffer_len == state.source->0.default_buffer_len
        },
        state.after_all(callbacks).auto_allocate_chunk_size == state.auto_allocate_chunk_size,
    decreases callbacks.len(),
{
    if callbacks.len() > 0 {
        let before = callbacks.drop_last();
        source_is_released_exactly_by_cancel(state, before);
        if forall|i: int| 0 <= i < before.len() ==> !(#[trigger] before[i] is Cancel) {
            assert forall|i: int| 0 <= i < callbacks.len() - 1 implies !(
            #[trigger] callbacks[i] is Cancel) by {
                assert(!(before[i] is Cancel));
            }
            assert(callbacks[callbacks.len() - 1] == callbacks.last());
        } else {
            let i = choose|i: int| 0 <= i < before.len() && #[trigger] before[i] is Cancel;
            assert(callbacks[i] is Cancel);
        }
    }
}

/// The pull that giving the source up aborts is the one that was registered
/// last, with no cancellation since; other calls of `start` do not matter.
pub proof fn last_pull_is_pending<C, K>(
    state: UnderlyingByteSourceView<C, K>,
    before: Seq<Callback<K>>,
    handle: AbortHandle,
    since: Seq<Callback<K>>,
)
    requires
        state.after_all(before).source is Some,
        forall|i: int| 0 <= i < since.len() ==> (#[trigger] since[i]) is Start,
    ensures
        state.after_all(before.push(Callback::Pull(handle)) + since).pending() == Some(handle),
    decreases since.len(),
{
    let pulled = before.push(Callback::Pull(handle));
    let callbacks = pulled + since;
    if since.len() == 0 {
        assert(callbacks =~= pulled);
        assert(pulled.drop_last() =~= before);
    } else {
        assert forall|i: int| 0 <= i < since.drop_last().len() implies (
        #[trigger] since.drop_last()[i]) is Start by {
            assert(since[i] is Start);
        }
        last_pull_is_pending(state, before, handle, since.drop_last());
        assert(callbacks.drop_last() =~= pulled + since.drop_last());
        assert(since[since.len() - 1] is Start);
    }
}

/// The length that a request asks for is that of its own view, whatever that
/// is; it is a request without a view, or no request, that throws.
pub proof fn request_asks_for_the_length_of_its_view(view_len: u32)
    ensures
        requested(Some(ByobRequest { view_len: Some(view_len) })) == Ok::<u32, Throw>(view_len),
        requested(Some(ByobRequest { view_len: None })) == Err::<u32, Throw>(Throw::NoView),
        requested(None) == Err::<u32, Throw>(Throw::NoByobRequest),
{
}

/// A pull lends the reader exactly as many bytes as the request's view has, and
/// lends them to the very reader that is there. So a reader is lent nothing,
/// and its reading nothing taken for the end of its input, only where the view
/// itself is empty.
pub proof fn reader_is_lent_the_length_of_the_view<R>(state: InnerView<R>, view_len: u32)
    requires
        state.reader is Some,
    ensures
        ({
            let request = Some(ByobRequest { view_len: Some(view_len) });
            &&& state.job(request) matches Ok(job) && job.request_len as int == view_len as int
                && Some(job.reader) == state.reader
            &&& state.begun(request).reader is None
            &&& state.begun(request).buffer.len() >= view_len
        }),
{
}

/// Beginning a pull throws exactly where there is no request, the request has no
/// view, or the reader is gone, in this order. Without a view nothing changes.
pub proof fn pull_without_view_or_reader_throws<R>(
    state: InnerView<R>,
    request: Option<ByobRequest>,
)
    ensures
        request is None ==> state.job(request) == Err::<ReadJob<R>, Throw>(Throw::NoByobRequest)
            && state.begun(request) == state,
        request matches Some(byob) && byob.view_len is None ==> state.job(request) == Err::<
            ReadJob<R>,
            Throw,
        >(Throw::NoView) && state.begun(request) == state,
        request matches Some(byob) && byob.view_len is Some && state.reader is None
            ==> state.job(request) == Err::<ReadJob<R>, Throw>(Throw::Spent),
{
}

/// No pull delivers more bytes than the request's own view holds, none delivers
/// zero bytes, and each delivers to where that view starts.
pub proof fn delivery_stays_within_the_view<R, E>(state: InnerView<R>, pull: Pull<E>)
    requires
        pull.outcome matches Some(Ok(bytes_read)) ==> (state.job(pull.request) is Ok ==> bytes_read
            <= state.job(pull.request)->Ok_0.request_len),
    ensures
        state.asks(pull) matches Some(PullAction::Deliver { offset, len }) ==> {
            &&& pull.request matches Some(byob)
            &&& byob.view_len matches Some(view_len)
            &&& 0 < len <= view_len
            &&& offset == pull.byte_offset
        },
{
}

/// The controller is asked to close exactly where the reader was lent the whole
/// view and read nothing, which is the end of its input.
pub proof fn controller_closes_exactly_where_nothing_was_read<R, E>(
    state: InnerView<R>,
    pull: Pull<E>,
)
    ensures
        state.asks(pull) == Some(PullAction::<E>::Close) <==> {
            &&& state.reader is Some
            &&& pull.request matches Some(byob) && byob.view_len is Some
            &&& pull.outcome == Some(Ok::<usize, E>(0))
        },
{
}

/// What the read came to decides what is asked for: a count that is not zero,
/// the delivery of that many bytes; zero, the closing; an error, nothing, and
/// the error is the answer. Only a count over 32 bits throws.
pub proof fn what_was_read_decides_the_call<E>(byte_offset: u32, bytes_read: usize, error: E)
    ensures
        0 < bytes_read <= u32::MAX ==> (read_action(byte_offset, Ok::<usize, E>(bytes_read))
            matches Ok(PullAction::Deliver { offset, len }) && offset == byte_offset && len as int
            == bytes_read as int),
        read_action(byte_offset, Ok::<usize, E>(0)) == Ok::<PullAction<E>, Throw>(
            PullAction::Close,
        ),
        bytes_read > u32::MAX ==> read_action(byte_offset, Ok::<usize, E>(bytes_read)) == Err::<
            PullAction<E>,
            Throw,
        >(Throw::TooLarge),
        read_action(byte_offset, Err::<usize, E>(error)) == Ok::<PullAction<E>, Throw>(
            PullAction::Done(Err(error)),
        ),
{
}

/// A reader that read at least one byte is kept, the very same one, with the
/// buffer; one at the end of its input or that failed is dropped, and the
/// buffer emptied. This is so for every reader, every count and every error.
pub proof fn only_read_bytes_keep_the_reader<R, E>(
    state: InnerView<R>,
    job: ReadJob<R>,
    bytes_read: usize,
    error: E,
)
    requires
        bytes_read > 0,
    ensures
        reads_on(Ok::<usize, E>(bytes_read)),
        !reads_on(Ok::<usize, E>(0)),
        !reads_on(Err::<usize, E>(error)),
        state.finished(job, Ok::<usize, E>(bytes_read)) == (InnerView {
            reader: Some(job.reader),
            buffer: state.buffer,
        }),
        state.finished(job, Ok::<usize, E>(0)) == (InnerView {
            reader: state.reader,
            buffer: Seq::empty(),
        }),
        state.finished(job, Err::<usize, E>(error)) == (InnerView {
            reader: state.reader,
            buffer: Seq::empty(),
        }),
{
}

/// The buffer becomes as long as it has to be and no longer, keeps the bytes
/// that it held, and is zero behind them.
pub proof fn buffer_grows_by_zeros(buffer: Seq<u8>, len: nat)
    ensures
        grown(buffer, len).len() == (if buffer.len() < len {
            len
        } else {
            buffer.len()
        }),
        forall|i: int| 0 <= i < buffer.len() ==> grown(buffer, len)[i] == buffer[i],
        forall|i: int| buffer.len() <= i < len ==> grown(buffer, len)[i] == 0,
{
}

/// Beginning a pull for a view changes the buffer only by growing it to the
/// length of the view.
pub proof fn begun_pull_keeps_the_bytes_held<R>(state: InnerView<R>, view_len: u32)
    ensures
        ({
            let begun = state.begun(Some(ByobRequest { view_len: Some(view_len) }));
            &&& begun.reader is None
            &&& begun.buffer.len() == (if state.buffer.len() < view_len {
                view_len as nat
            } else {
                state.buffer.len()
            })
            &&& forall|i: int|
                0 <= i < state.buffer.len() ==> #[trigger] begun.buffer[i] == state.buffer[i]
            &&& forall|i: int|
                state.buffer.len() <= i < begun.buffer.len() ==> #[trigger] begun.buffer[i] == 0
        }),
{
}

/// What a reader leaves in the bytes that were lent to it is what the buffer
/// then starts with; the bytes behind them, and the reader's slot, stay as they
/// are.
pub proof fn reading_changes_only_the_bytes_lent<R>(
    state: InnerView<R>,
    request_len: usize,
    written: Seq<u8>,
)
    requires
        written.len() == request_len,
        request_len <= state.buffer.len(),
    ensures
        ({
            let read = state.read_into(request_len, written);
            &&& read.reader == state.reader
            &&& read.buffer.len() == state.buffer.len()
            &&& forall|i: int| 0 <= i < request_len ==> #[trigger] read.buffer[i] == written[i]
            &&& forall|i: int|
                request_len <= i < state.buffer.len() ==> #[trigger] read.buffer[i]
                    == state.buffer[i]
        }),
{
}

/// The request is answered, with no bytes, only once the controller has closed;
/// any other call is the last one, and what it comes to is the answer; and an
/// answer is never changed again.
pub proof fn the_calls_decide_the_answer<E>(
    number: u32,
    offset: u32,
    error: E,
    called: Result<(), E>,
    answer: Result<(), E>,
)
    ensures
        PullAction::<E>::Close.followed_by(Ok(())) == PullAction::<E>::Respond(0),
        PullAction::<E>::Close.followed_by(Err(error)) == PullAction::<E>::Done(Err(error)),
        (PullAction::<E>::Deliver { offset, len: number }).followed_by(called) == PullAction::<
            E,
        >::Done(called),
        PullAction::<E>::Respond(number).followed_by(called) == PullAction::<E>::Done(called),
        PullAction::<E>::Done(answer).followed_by(called) == PullAction::<E>::Done(answer),
{
}

/// Starting changes nothing of a source but the controller, which becomes the
/// one that was given; a pull nothing but the handle, which becomes its own;
/// cancelling takes the source away; and without a source nothing happens. The
/// chunk size never changes.
pub proof fn callbacks_change_only_what_they_are_for<C, K>(
    state: UnderlyingByteSourceView<C, K>,
    controller: K,
    handle: AbortHandle,
    callback: Callback<K>,
)
    ensures
        state.after(callback).auto_allocate_chunk_size == state.auto_allocate_chunk_size,
        state.source is None ==> state.after(callback).source is None,
        state.after(Callback::Cancel).source is None,
        state.source is None ==> state.pending() is None,
        state.source matches Some(source) ==> {
            &&& state.pending() == source.pull_handle
            &&& state.after(Callback::Start(controller)).source == Some(
                source.started(controller),
            )
            &&& state.after(Callback::Pull(handle)).source == Some(source.pulled(handle))
            &&& source.started(controller) == (ByteSourceView {
                inner: source.inner,
                default_buffer_len: source.default_buffer_len,
                controller: Some(controller),
                pull_handle: source.pull_handle,
            })
            &&& source.pulled(handle) == (ByteSourceView {
                inner: source.inner,
                default_buffer_len: source.default_buffer_len,
                controller: source.controller,
                pull_handle: Some(handle),
            })
        },
{
}

} // verus!

//! A stream of chunks behind a readable stream.
use std::rc::Rc;

use futures_util::future::AbortHandle;
use vstd::prelude::*;

use crate::abort::{new_pair, AbortedPull};
use crate::pull::{abort_pending, aborts, PullTask};
use crate::shared::share;
use crate::slot::{
    after_operations, put_back, take, taken, value_outlives_exactly_reusable_operations,
};
use crate::throw::Throw;

verus! {

/// What a pull does next to the stream's controller.
#[derive(Debug, PartialEq, Eq)]
pub enum PullAction<V, E> {
    /// Enqueue the chunk.
    Enqueue(V),
    /// Close the controller.
    Close,
    /// Nothing more: this is the pull's answer.
    Done(Result<(), E>),
}

impl<V, E> PullAction<V, E> {
    /// The action after this one, which came to `called`.
    pub open spec fn followed_by(self, called: Result<(), E>) -> Self {
        match self {
            PullAction::Done(answer) => PullAction::Done(answer),
            _ => PullAction::Done(called),
        }
    }

    /// Goes on after the call that this action asks for came to `called`, which
    /// is then the pull's answer.
    pub fn advance(self, called: Result<(), E>) -> (next: Self)
        ensures
            next == self.followed_by(called),
            self matches PullAction::Done(answer) ==> next == PullAction::<V, E>::Done(answer),
            !(self is Done) ==> next == PullAction::<V, E>::Done(called),
    {
        match self {
            PullAction::Done(answer) => PullAction::Done(answer),
            _ => PullAction::Done(called),
        }
    }
}

/// Whether a stream that gave `next` may be asked for more.
pub open spec fn goes_on<V, E>(next: Result<Option<V>, E>) -> bool {
    next matches Ok(Some(_))
}

/// What to do once the stream has given `next`.
pub open spec fn next_action<V, E>(next: Result<Option<V>, E>) -> PullAction<V, E> {
    match next {
        Ok(Some(chunk)) => PullAction::Enqueue(chunk),
        Ok(None) => PullAction::Close,
        Err(error) => PullAction::Done(Err(error)),
    }
}

/// The stream, unless it is in use or gone.
pub struct Inner<S> {
    stream: Option<S>,
}

impl<S> View for Inner<S> {
    type V = Option<S>;

    closed spec fn view(&self) -> Option<S> {
        self.stream
    }
}

impl<S> Inner<S> {
    /// Starts with the stream in place.
    pub fn new(stream: S) -> (inner: Self)
        ensures
            inner@ == Some(stream),
    {
        Inner { stream: Some(stream) }
    }

    /// Begins a pull: takes the stream out. The stream is gone from here on
    /// unless `finish_pull` puts it back, so a pull that is cut short leaves
    /// nothing to be reused.
    pub fn begin_pull(&mut self) -> (stream: Result<S, Throw>)
        ensures
            final(self)@ == None::<S>,
            stream == taken(old(self)@),
            old(self)@ matches Some(there) ==> stream == Ok::<S, Throw>(there),
            old(self)@ is None ==> stream == Err::<S, Throw>(Throw::Spent),
    {
        take(&mut self.stream)
    }

    /// Finishes a pull, to which the stream answered with `next`. Where that is
    /// a chunk, the stream is put back, before anything is done with the chunk;
    /// at its end and after an error the stream is dropped.
    pub fn finish_pull<V, E>(&mut self, stream: S, next: Result<Option<V>, E>) -> (action:
        PullAction<V, E>)
        ensures
            final(self)@ == put_back(old(self)@, stream, goes_on(next)),
            action == next_action(next),
            next matches Ok(Some(chunk)) ==> final(self)@ == Some(stream)
                && action == PullAction::<V, E>::Enqueue(chunk),
            next matches Ok(None) ==> final(self)@ == old(self)@
                && action == PullAction::<V, E>::Close,
            next matches Err(error) ==> final(self)@ == old(self)@
                && action == PullAction::<V, E>::Done(Err(error)),
    {
        match next {
            Ok(Some(chunk)) => {
                self.stream = Some(stream);
                PullAction::Enqueue(chunk)
            },
            Ok(None) => PullAction::Close,
            Err(error) => PullAction::Done(Err(error)),
        }
    }
}

/// The state of an `IntoUnderlyingSource`.
pub struct SourceView<C> {
    pub inner: Rc<C>,
    pub pull_handle: Option<AbortHandle>,
}

impl<C> SourceView<C> {
    /// The state with a pull registered that `handle` aborts.
    pub open spec fn pulled(self, handle: AbortHandle) -> Self {
        SourceView { pull_handle: Some(handle), ..self }
    }
}

/// A stream of chunks made ready to stand behind a readable stream.
///
/// `C` is the cell through which the stream's callbacks and its pending pull
/// share the `Inner`.
///
/// The pending pull is aborted by `drop` and by the `cancel` of the callbacks,
/// and by nothing else: a source that merely goes out of scope leaves it
/// running.
pub struct IntoUnderlyingSource<C> {
    inner: Rc<C>,
    pull_handle: Option<AbortHandle>,
}

impl<C> View for IntoUnderlyingSource<C> {
    type V = SourceView<C>;

    closed spec fn view(&self) -> SourceView<C> {
        SourceView { inner: self.inner, pull_handle: self.pull_handle }
    }
}

impl<C> IntoUnderlyingSource<C> {
    /// Makes a source with no pending pull.
    pub fn new(inner: Rc<C>) -> (source: Self)
        ensures
            source@ == (SourceView { inner, pull_handle: None }),
    {
        IntoUnderlyingSource { inner, pull_handle: None }
    }

    /// Turns the source into the callbacks of a readable stream.
    pub fn into_raw(self) -> (raw: UnderlyingSource<C>)
        ensures
            raw@ == Some(self@),
    {
        UnderlyingSource { source: Some(self) }
    }

    /// Registers a new pull. From here on it is this pull that dropping the
    /// source aborts. The handle of the pull before it is replaced, not aborted.
    pub fn pull<K>(&mut self, controller: K) -> (task: PullTask<C, K>)
        ensures
            task.inner == old(self)@.inner,
            task.controller == controller,
            task.replaced == old(self)@.pull_handle,
            final(self)@ == old(self)@.pulled(task.registration.handle()),
    {
        let inner = share(&self.inner);
        let (handle, registration) = new_pair();
        let replaced = self.pull_handle.take();
        self.pull_handle = Some(handle);
        PullTask { inner, controller, registration, replaced }
    }

    /// Gives the source up, and aborts the pull that was last registered.
    pub fn drop(self) -> (aborted: Option<AbortedPull>)
        ensures
            aborts(aborted, self@.pull_handle),
            aborted is Some <==> self@.pull_handle is Some,
            aborted matches Some(pull) ==> self@.pull_handle == Some(pull.handle()),
    {
        abort_pending(self.pull_handle)
    }
}

/// A call of one of the callbacks.
pub enum Callback {
    /// A pull, and the handle that aborts it.
    Pull(AbortHandle),
    Cancel,
}

/// The handle of the pull that is aborted if the source is given up now.
pub open spec fn pending<C>(source: Option<SourceView<C>>) -> Option<AbortHandle> {
    match source {
        Some(source) => source.pull_handle,
        None => None,
    }
}

/// The source after one callback. Once it is gone, nothing brings it back.
pub open spec fn after_callback<C>(
    source: Option<SourceView<C>>,
    callback: Callback,
) -> Option<SourceView<C>> {
    match source {
        Some(source) => match callback {
            Callback::Pull(handle) => Some(source.pulled(handle)),
            Callback::Cancel => None,
        },
        None => None,
    }
}

/// The source after the given callbacks, in order.
pub open spec fn after_callbacks<C>(
    source: Option<SourceView<C>>,
    callbacks: Seq<Callback>,
) -> Option<SourceView<C>>
    decreases callbacks.len(),
{
    if callbacks.len() == 0 {
        source
    } else {
        after_callback(after_callbacks(source, callbacks.drop_last()), callbacks.last())
    }
}

/// The callbacks of a readable stream. The source behind them is there until
/// the stream is cancelled.
pub struct UnderlyingSource<C> {
    source: Option<IntoUnderlyingSource<C>>,
}

impl<C> View for UnderlyingSource<C> {
    type V = Option<SourceView<C>>;

    closed spec fn view(&self) -> Option<SourceView<C>> {
        match self.source {
            Some(source) => Some(source@),
            None => None,
        }
    }
}

impl<C> UnderlyingSource<C> {
    /// The `pull` callback.
    pub fn pull<K>(&mut self, controller: K) -> (task: Result<PullTask<C, K>, Throw>)
        ensures
            match old(self)@ {
                Some(source) => {
                    &&& task matches Ok(task)
                    &&& task.inner == source.inner
                    &&& task.controller == controller
                    &&& task.replaced == source.pull_handle
                    &&& final(self)@ == after_callback(
                        old(self)@,
                        Callback::Pull(task.registration.handle()),
                    )
                },
                None => {
                    &&& task == Err::<PullTask<C, K>, Throw>(Throw::Released)
                    &&& final(self)@ == old(self)@
                },
            },
    {
        match self.source.as_mut() {
            Some(source) => Ok(source.pull(controller)),
            None => Err(Throw::Released),
        }
    }

    /// The `cancel` callback: gives the source up, with the pull that is
    /// pending. Cancelling once more does nothing.
    pub fn cancel(&mut self) -> (aborted: Option<AbortedPull>)
        ensures
            final(self)@ == after_callback(old(self)@, Callback::Cancel),
            final(self)@ is None,
            aborts(aborted, pending(old(self)@)),
            aborted is Some <==> (old(self)@ matches Some(source) && source.pull_handle is Some),
            aborted matches Some(pull) ==> old(self)@->0.pull_handle == Some(pull.handle()),
    {
        match self.source.take() {
            Some(source) => source.drop(),
            None => None,
        }
    }
}

/// One whole pull of an `Inner`: what the stream answered with, unless the
/// pull was cut short.
pub type Pull<V, E> = Option<Result<Option<V>, E>>;

/// Whether the stream, if it was there before the pull, still is after it.
pub open spec fn keeps_stream<V, E>(pull: Pull<V, E>) -> bool {
    pull matches Some(Ok(Some(_)))
}

/// The stream after one whole pull, as `begin_pull` and `finish_pull` leave it.
pub open spec fn after_pull<S, V, E>(stream: Option<S>, pull: Pull<V, E>) -> Option<S> {
    match taken(stream) {
        Ok(taken) => match pull {
            Some(next) => put_back(None, taken, goes_on(next)),
            None => None,
        },
        Err(_) => None,
    }
}

/// The stream after the given pulls, in order.
pub open spec fn after_pulls<S, V, E>(stream: Option<S>, pulls: Seq<Pull<V, E>>) -> Option<S>
    decreases pulls.len(),
{
    if pulls.len() == 0 {
        stream
    } else {
        after_pull(after_pulls(stream, pulls.drop_last()), pulls.last())
    }
}

/// The stream outlives a sequence of pulls exactly where each of them gave a
/// chunk: after its end, an error, or a pull that was cut short, it is gone for
/// good.
pub proof fn stream_outlives_exactly_chunks<S, V, E>(stream: Option<S>, pulls: Seq<Pull<V, E>>)
    ensures
        after_pulls(stream, pulls) == after_operations(
            stream,
            pulls.map_values(|pull: Pull<V, E>| keeps_stream(pull)),
        ),
        after_pulls(stream, pulls) == (if forall|i: int|
            0 <= i < pulls.len() ==> keeps_stream(#[trigger] pulls[i]) {
            stream
        } else {
            None
        }),
    decreases pulls.len(),
{
    let keeps = |pull: Pull<V, E>| keeps_stream(pull);
    let kept = pulls.map_values(keeps);
    if pulls.len() > 0 {
        stream_outlives_exactly_chunks(stream, pulls.drop_last());
        assert(kept.drop_last() =~= pulls.drop_last().map_values(keeps));
        assert(kept.last() == keeps_stream(pulls.last()));
    }
    value_outlives_exactly_reusable_operations(stream, kept);
    if forall|i: int| 0 <= i < pulls.len() ==> keeps_stream(#[trigger] pulls[i]) {
        assert forall|i: int| 0 <= i < kept.len() implies kept[i] by {
            assert(keeps_stream(pulls[i]));
        }
    } else {
        let i = choose|i: int| 0 <= i < pulls.len() && !keeps_stream(#[trigger] pulls[i]);
        assert(!kept[i]);
    }
}

/// The chunk that one whole pull enqueues, if it enqueues one.
pub open spec fn enqueues<S, V, E>(stream: Option<S>, pull: Pull<V, E>) -> Seq<V> {
    match (taken(stream), pull) {
        (Ok(_), Some(next)) => match next_action(next) {
            PullAction::Enqueue(chunk) => seq![chunk],
            _ => Seq::empty(),
        },
        _ => Seq::empty(),
    }
}

/// The chunks that the given pulls enqueue, in order.
pub open spec fn enqueues_all<S, V, E>(stream: Option<S>, pulls: Seq<Pull<V, E>>) -> Seq<V>
    decreases pulls.len(),
{
    if pulls.len() == 0 {
        Seq::empty()
    } else {
        enqueues_all(stream, pulls.drop_last()) + enqueues(
            after_pulls(stream, pulls.drop_last()),
            pulls.last(),
        )
    }
}

/// The pulls to which a stream answers with `chunks`.
pub open spec fn pulls_of<V, E>(chunks: Seq<V>) -> Seq<Pull<V, E>> {
    chunks.map_values(|chunk: V| Some(Ok::<Option<V>, E>(Some(chunk))))
}

/// Over any sequence of pulls, every chunk that the stream gave is enqueued,
/// once and in order, up to the first pull that gave none, and nothing from
/// then on.
pub proof fn chunks_are_enqueued_once_and_in_order<S, V, E>(
    stream: S,
    chunks: Seq<V>,
    rest: Seq<Pull<V, E>>,
)
    requires
        rest.len() > 0 ==> !keeps_stream(rest[0]),
    ensures
        enqueues_all(Some(stream), pulls_of(chunks) + rest) == chunks,
    decreases chunks.len() + rest.len(),
{
    let live = pulls_of::<V, E>(chunks);
    let pulls = live + rest;
    if rest.len() > 0 {
        let before = live + rest.drop_last();
        chunks_are_enqueued_once_and_in_order(stream, chunks, rest.drop_last());
        assert(pulls.drop_last() =~= before);
        stream_outlives_exactly_chunks(Some(stream), before);
        if rest.len() > 1 {
            assert(!keeps_stream(before[live.len() as int]));
        }
        assert(enqueues_all(Some(stream), pulls) =~= chunks);
    } else if chunks.len() > 0 {
        let before = pulls_of::<V, E>(chunks.drop_last());
        chunks_are_enqueued_once_and_in_order(stream, chunks.drop_last(), rest);
        assert(before + rest =~= before);
        assert(pulls.drop_last() =~= before);
        stream_outlives_exactly_chunks(Some(stream), before);
        assert(enqueues_all(Some(stream), pulls) =~= chunks);
    } else {
        assert(enqueues_all(Some(stream), pulls) =~= chunks);
    }
}

/// The call that one whole pull makes, if it makes one.
pub open spec fn calls<S, V, E>(stream: Option<S>, pull: Pull<V, E>) -> Seq<PullAction<V, E>> {
    match (taken(stream), pull) {
        (Ok(_), Some(next)) => if next_action(next) is Done {
            Seq::empty()
        } else {
            seq![next_action(next)]
        },
        _ => Seq::empty(),
    }
}

/// The calls that the given pulls make, in order.
pub open spec fn calls_all<S, V, E>(stream: Option<S>, pulls: Seq<Pull<V, E>>) -> Seq<
    PullAction<V, E>,
>
    decreases pulls.len(),
{
    if pulls.len() == 0 {
        Seq::empty()
    } else {
        calls_all(stream, pulls.drop_last()) + calls(
            after_pulls(stream, pulls.drop_last()),
            pulls.last(),
        )
    }
}

/// Over any sequence of pulls, the calls are one that enqueues for each chunk,
/// in order, and at the end of the stream one that closes. So the controller is
/// closed at most once, after the last chunk, by the first pull that finds the
/// end of the stream, and by no pull after an error or one that was cut short.
pub proof fn controller_is_closed_once_at_the_end<S, V, E>(
    stream: S,
    chunks: Seq<V>,
    rest: Seq<Pull<V, E>>,
)
    requires
        rest.len() > 0 ==> !keeps_stream(rest[0]),
    ensures
        calls_all(Some(stream), pulls_of(chunks) + rest) == chunks.map_values(
            |chunk: V| PullAction::<V, E>::Enqueue(chunk),
        ) + (if rest.len() > 0 && rest[0] matches Some(Ok(_)) {
            seq![PullAction::<V, E>::Close]
        } else {
            Seq::empty()
        }),
    decreases chunks.len() + rest.len(),
{
    let live = pulls_of::<V, E>(chunks);
    let pulls = live + rest;
    let enqueued = chunks.map_values(|chunk: V| PullAction::<V, E>::Enqueue(chunk));
    if rest.len() > 0 {
        let before = live + rest.drop_last();
        controller_is_closed_once_at_the_end(stream, chunks, rest.drop_last());
        assert(pulls.drop_last() =~= before);
        stream_outlives_exactly_chunks(Some(stream), before);
        if rest.len() > 1 {
            assert(!keeps_stream(before[live.len() as int]));
            assert(calls(after_pulls(Some(stream), before), pulls.last()) =~= Seq::empty());
        } else {
            assert(after_pulls(Some(stream), before) == Some(stream));
        }
        assert(calls_all(Some(stream), pulls) =~= calls_all(Some(stream), before) + calls(
            after_pulls(Some(stream), before),
            pulls.last(),
        ));
    } else if chunks.len() > 0 {
        let before = pulls_of::<V, E>(chunks.drop_last());
        controller_is_closed_once_at_the_end(stream, chunks.drop_last(), rest);
        assert(before + rest =~= before);
        assert(pulls.drop_last() =~= before);
        stream_outlives_exactly_chunks(Some(stream), before);
        assert(calls_all(Some(stream), pulls) =~= enqueued);
    } else {
        assert(calls_all(Some(stream), pulls) =~= enqueued);
    }
}

/// Once the stream is gone, every pull throws.
pub proof fn pulls_without_stream_throw<S, V, E>(pulls: Seq<Pull<V, E>>)
    ensures
        taken(after_pulls(None::<S>, pulls)) == Err::<S, Throw>(Throw::Spent),
{
    stream_outlives_exactly_chunks(None::<S>, pulls);
}

/// Every pull that does not throw comes to its answer after at most one call:
/// the error of the stream, or what the call came to. A chunk is enqueued as
/// the stream gave it.
pub proof fn every_pull_is_answered<V, E>(next: Result<Option<V>, E>, called: Result<(), E>)
    ensures
        next_action(next).followed_by(called) == PullAction::<V, E>::Done(
            match next {
                Ok(_) => called,
                Err(error) => Err(error),
            },
        ),
        next matches Ok(Some(chunk)) ==> next_action(next) == PullAction::<V, E>::Enqueue(chunk),
{
}

/// The source is there until the first cancellation and never again after it,
/// and it keeps its inner cell all the time.
pub proof fn source_is_released_exactly_by_cancel<C>(
    source: Option<SourceView<C>>,
    callbacks: Seq<Callback>,
)
    ensures
        after_callbacks(source, callbacks) is Some <==> source is Some && (forall|i: int|
            0 <= i < callbacks.len() ==> !(#[trigger] callbacks[i] is Cancel)),
        after_callbacks(source, callbacks) matches Some(after) ==> after.inner == source->0.inner,
    decreases callbacks.len(),
{
    if callbacks.len() > 0 {
        let before = callbacks.drop_last();
        source_is_released_exactly_by_cancel(source, before);
        if forall|i: int| 0 <= i < before.len() ==> !(#[trigger] before[i] is Cancel) {
            assert forall|i: int| 0 <= i < callbacks.len() - 1 implies !(
            #[trigger] callbacks[i] is Cancel) by {
                assert(!(before[i] is Cancel));
            }
            assert(callbacks[callbacks.len() - 1] == callbacks.last());
        } else {
            let i = choose|i: int| 0 <= i < before.len() && #[trigger] before[i] is Cancel;
            assert(callbacks[i] is Cancel);
        }
    }
}

/// The pull that giving the source up aborts is the one that was registered
/// last.
pub proof fn last_pull_is_pending<C>(
    source: Option<SourceView<C>>,
    before: Seq<Callback>,
    handle: AbortHandle,
)
    requires
        after_callbacks(source, before) is Some,
    ensures
        pending(after_callbacks(source, before.push(Callback::Pull(handle)))) == Some(handle),
{
    assert(before.push(Callback::Pull(handle)).drop_last() =~= before);
}

/// A stream that gave a chunk is kept, the very same one; one that has come to
/// its end or has failed is dropped, and every pull after that throws. This is
/// so for every stream, every chunk and every error.
pub proof fn only_a_chunk_keeps_the_stream<S, V, E>(stream: S, chunk: V, error: E)
    ensures
        goes_on(Ok::<Option<V>, E>(Some(chunk))),
        !goes_on(Ok::<Option<V>, E>(None)),
        !goes_on(Err::<Option<V>, E>(error)),
        after_pull(Some(stream), Some(Ok::<Option<V>, E>(Some(chunk)))) == Some(stream),
        after_pull(Some(stream), Some(Ok::<Option<V>, E>(None))) == None::<S>,
        after_pull(Some(stream), Some(Err::<Option<V>, E>(error))) == None::<S>,
        after_pull(Some(stream), None::<Result<Option<V>, E>>) == None::<S>,
        taken(after_pull(Some(stream), Some(Ok::<Option<V>, E>(None)))) == Err::<S, Throw>(
            Throw::Spent,
        ),
        taken(after_pull(Some(stream), Some(Err::<Option<V>, E>(error)))) == Err::<S, Throw>(
            Throw::Spent,
        ),
{
}

/// The controller is asked to enqueue exactly the chunk that the stream gave, to
/// close exactly at the end of the stream, and for nothing exactly where the
/// stream failed, whose error is then the answer.
pub proof fn what_the_stream_gives_decides_the_call<V, E>(
    next: Result<Option<V>, E>,
    chunk: V,
    error: E,
)
    ensures
        next_action(next) == PullAction::<V, E>::Enqueue(chunk) <==> next == Ok::<Option<V>, E>(
            Some(chunk),
        ),
        next_action(next) == PullAction::<V, E>::Close <==> next == Ok::<Option<V>, E>(None),
        next_action(next) == PullAction::<V, E>::Done(Err(error)) <==> next == Err::<
            Option<V>,
            E,
        >(error),
        next_action(next) != PullAction::<V, E>::Done(Ok(())),
{
}

/// What a call comes to is the answer of the pull that made it, and an answer
/// is never changed again.
pub proof fn the_call_decides_the_answer<V, E>(
    chunk: V,
    called: Result<(), E>,
    answer: Result<(), E>,
)
    ensures
        PullAction::Enqueue(chunk).followed_by(called) == PullAction::<V, E>::Done(called),
        PullAction::<V, E>::Close.followed_by(called) == PullAction::<V, E>::Done(called),
        PullAction::<V, E>::Done(answer).followed_by(called) == PullAction::<V, E>::Done(answer),
{
}

/// A pull changes nothing of a source but the handle, which becomes its own;
/// cancelling takes the source away; and without a source nothing happens.
pub proof fn callbacks_change_only_what_they_are_for<C>(
    source: SourceView<C>,
    handle: AbortHandle,
    callback: Callback,
)
    ensures
        after_callback(Some(source), Callback::Pull(handle)) matches Some(after) && after.inner
            == source.inner && after.pull_handle == Some(handle),
        source.pulled(handle).inner == source.inner,
        source.pulled(handle).pull_handle == Some(handle),
        after_callback(Some(source), Callback::Cancel) is None,
        after_callback(None::<SourceView<C>>, callback) is None,
        pending(Some(source)) == source.pull_handle,
        pending(None::<SourceView<C>>) is None,
{
}

} // verus!

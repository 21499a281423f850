//! A sink for chunks behind a writable stream.
use std::rc::Rc;

use vstd::prelude::*;

use crate::shared::share;
use crate::slot::{
    after_operations, put_back, take, taken, value_outlives_exactly_reusable_operations,
};
use crate::throw::Throw;

verus! {

/// A sink on its way to take a chunk.
#[derive(Debug)]
pub struct SendJob<S, V> {
    pub sink: S,
    pub chunk: V,
}

/// What beginning a write of `chunk` comes to.
pub open spec fn send_job<S, V>(sink: Option<S>, chunk: V) -> Result<SendJob<S, V>, Throw> {
    match taken(sink) {
        Ok(sink) => Ok(SendJob { sink, chunk }),
        Err(throw) => Err(throw),
    }
}

/// The sink, unless it is in use or gone.
pub struct Inner<S> {
    sink: Option<S>,
}

impl<S> View for Inner<S> {
    type V = Option<S>;

    closed spec fn view(&self) -> Option<S> {
        self.sink
    }
}

impl<S> Inner<S> {
    /// Starts with the sink in place.
    pub fn new(sink: S) -> (inner: Self)
        ensures
            inner@ == Some(sink),
    {
        Inner { sink: Some(sink) }
    }

    /// Begins a write of `chunk`: takes the sink out. The sink is gone from here
    /// on unless `finish_write` puts it back, so a write that is cut short
    /// leaves nothing to be reused.
    pub fn begin_write<V>(&mut self, chunk: V) -> (job: Result<SendJob<S, V>, Throw>)
        ensures
            final(self)@ == None::<S>,
            job == send_job(old(self)@, chunk),
            old(self)@ matches Some(there) ==> job == Ok::<SendJob<S, V>, Throw>(
                SendJob { sink: there, chunk },
            ),
            old(self)@ is None ==> job == Err::<SendJob<S, V>, Throw>(Throw::Spent),
    {
        match take(&mut self.sink) {
            Ok(sink) => Ok(SendJob { sink, chunk }),
            Err(throw) => Err(throw),
        }
    }

    /// Finishes a write, to which the sink answered with `sent`, which is the
    /// write's answer. A sink that failed is dropped.
    pub fn finish_write<E>(&mut self, sink: S, sent: Result<(), E>) -> (answer: Result<(), E>)
        ensures
            final(self)@ == put_back(old(self)@, sink, sent is Ok),
            sent is Ok ==> final(self)@ == Some(sink),
            sent is Err ==> final(self)@ == old(self)@,
            answer == sent,
    {
        match sent {
            Ok(done) => {
                self.sink = Some(sink);
                Ok(done)
            },
            Err(error) => Err(error),
        }
    }

    /// Takes the sink out for good, to be closed.
    pub fn close(&mut self) -> (sink: Result<S, Throw>)
        ensures
            final(self)@ == None::<S>,
            sink == taken(old(self)@),
            old(self)@ matches Some(there) ==> sink == Ok::<S, Throw>(there),
            old(self)@ is None ==> sink == Err::<S, Throw>(Throw::Spent),
    {
        take(&mut self.sink)
    }

    /// Drops the sink, if it is there. Neither the reason nor a sink that is
    /// gone already matters: this always succeeds.
    pub fn abort<V, E>(&mut self, _reason: V) -> (answer: Result<(), E>)
        ensures
            final(self)@ == None::<S>,
            answer == Ok::<(), E>(()),
    {
        self.sink = None;
        Ok(())
    }
}

/// What the future of one write needs.
pub struct WriteTask<C, V> {
    pub inner: Rc<C>,
    pub chunk: V,
}

/// What the future of an abort needs.
pub struct AbortTask<C, V> {
    pub inner: Rc<C>,
    pub reason: V,
}

/// A sink for chunks made ready to stand behind a writable stream.
///
/// `C` is the cell through which the operations of the stream share the
/// `Inner`.
pub struct IntoUnderlyingSink<C> {
    inner: Rc<C>,
}

impl<C> View for IntoUnderlyingSink<C> {
    type V = Rc<C>;

    closed spec fn view(&self) -> Rc<C> {
        self.inner
    }
}

impl<C> IntoUnderlyingSink<C> {
    /// Makes a sink out of the cell of its `Inner`.
    pub fn new(inner: Rc<C>) -> (sink: Self)
        ensures
            sink@ == inner,
    {
        IntoUnderlyingSink { inner }
    }

    /// Turns the sink into the callbacks of a writable stream.
    pub fn into_raw(self) -> (raw: UnderlyingSink<C>)
        ensures
            raw@ == Some(self@),
    {
        UnderlyingSink { sink: Some(self) }
    }

    /// Gives the write of one more chunk its share of the `Inner`.
    pub fn write<V>(&mut self, chunk: V) -> (task: WriteTask<C, V>)
        ensures
            task == (WriteTask { inner: old(self)@, chunk }),
            final(self)@ == old(self)@,
    {
        WriteTask { inner: share(&self.inner), chunk }
    }

    /// Gives the `Inner` over to the operation that closes it.
    pub fn close(self) -> (inner: Rc<C>)
        ensures
            inner == self@,
    {
        self.inner
    }

    /// Gives the `Inner` over to the operation that aborts it.
    pub fn abort<V>(self, reason: V) -> (task: AbortTask<C, V>)
        ensures
            task == (AbortTask { inner: self@, reason }),
    {
        AbortTask { inner: self.inner, reason }
    }
}

/// A call of one of the callbacks.
pub enum Callback {
    Write,
    Close,
    Abort,
}

/// The sink after one callback. Once it is gone, nothing brings it back.
pub open spec fn after_callback<C>(sink: Option<Rc<C>>, callback: Callback) -> Option<Rc<C>> {
    match callback {
        Callback::Write => sink,
        Callback::Close => None,
        Callback::Abort => None,
    }
}

/// The sink after the given callbacks, in order.
pub open spec fn after_callbacks<C>(
    sink: Option<Rc<C>>,
    callbacks: Seq<Callback>,
) -> Option<Rc<C>>
    decreases callbacks.len(),
{
    if callbacks.len() == 0 {
        sink
    } else {
        after_callback(after_callbacks(sink, callbacks.drop_last()), callbacks.last())
    }
}

/// The callbacks of a writable stream. The sink behind them is there until the
/// stream is closed or aborted.
pub struct UnderlyingSink<C> {
    sink: Option<IntoUnderlyingSink<C>>,
}

impl<C> View for UnderlyingSink<C> {
    type V = Option<Rc<C>>;

    closed spec fn view(&self) -> Option<Rc<C>> {
        match self.sink {
            Some(sink) => Some(sink@),
            None => None,
        }
    }
}

impl<C> UnderlyingSink<C> {
    /// The `write` callback.
    pub fn write<V>(&mut self, chunk: V) -> (task: Result<WriteTask<C, V>, Throw>)
        ensures
            final(self)@ == after_callback(old(self)@, Callback::Write),
            task == (match old(self)@ {
                Some(inner) => Ok(WriteTask { inner, chunk }),
                None => Err(Throw::Released),
            }),
    {
        match self.sink.as_mut() {
            Some(sink) => Ok(sink.write(chunk)),
            None => Err(Throw::Released),
        }
    }

    /// The `close` callback.
    pub fn close(&mut self) -> (inner: Result<Rc<C>, Throw>)
        ensures
            final(self)@ == after_callback(old(self)@, Callback::Close),
            inner == (match old(self)@ {
                Some(inner) => Ok(inner),
                None => Err(Throw::Released),
            }),
    {
        match self.sink.take() {
            Some(sink) => Ok(sink.close()),
            None => Err(Throw::Released),
        }
    }

    /// The `abort` callback.
    pub fn abort<V>(&mut self, reason: V) -> (task: Result<AbortTask<C, V>, Throw>)
        ensures
            final(self)@ == after_callback(old(self)@, Callback::Abort),
            task == (match old(self)@ {
                Some(inner) => Ok(AbortTask { inner, reason }),
                None => Err(Throw::Released),
            }),
    {
        match self.sink.take() {
            Some(sink) => Ok(sink.abort(reason)),
            None => Err(Throw::Released),
        }
    }
}

/// One whole operation on an `Inner`.
pub enum Operation<V, E> {
    /// A write of a chunk, and what the sink answered with unless the write was
    /// cut short.
    Write(V, Option<Result<(), E>>),
    Close,
    Abort,
}

impl<V, E> Operation<V, E> {
    /// Whether the sink, if it was there before the operation, still is after
    /// it.
    pub open spec fn keeps_sink(self) -> bool {
        self matches Operation::Write(_, Some(Ok(())))
    }
}

/// The sink after one whole operation, as the methods of `Inner` leave it.
pub open spec fn after_operation<S, V, E>(sink: Option<S>, operation: Operation<V, E>) -> Option<S> {
    match operation {
        Operation::Write(chunk, sent) => match send_job(sink, chunk) {
            Ok(job) => match sent {
                Some(sent) => put_back(None, job.sink, sent is Ok),
                None => None,
            },
            Err(_) => None,
        },
        Operation::Close => None,
        Operation::Abort => None,
    }
}

/// The sink after the given operations, in order.
pub open spec fn after_all<S, V, E>(sink: Option<S>, operations: Seq<Operation<V, E>>) -> Option<S>
    decreases operations.len(),
{
    if operations.len() == 0 {
        sink
    } else {
        after_operation(after_all(sink, operations.drop_last()), operations.last())
    }
}

/// The sink outlives a sequence of operations exactly where all of them are
/// writes that succeeded: after a write that failed or was cut short, after
/// closing and after aborting, it is gone for good.
pub proof fn sink_outlives_exactly_successful_writes<S, V, E>(
    sink: Option<S>,
    operations: Seq<Operation<V, E>>,
)
    ensures
        after_all(sink, operations) == after_operations(
            sink,
            operations.map_values(|operation: Operation<V, E>| operation.keeps_sink()),
        ),
        after_all(sink, operations) == (if forall|i: int|
            0 <= i < operations.len() ==> (#[trigger] operations[i]).keeps_sink() {
            sink
        } else {
            None
        }),
    decreases operations.len(),
{
    let keeps = |operation: Operation<V, E>| operation.keeps_sink();
    let kept = operations.map_values(keeps);
    if operations.len() > 0 {
        sink_outlives_exactly_successful_writes(sink, operations.drop_last());
        assert(kept.drop_last() =~= operations.drop_last().map_values(keeps));
        assert(kept.last() == operations.last().keeps_sink());
    }
    value_outlives_exactly_reusable_operations(sink, kept);
    if forall|i: int| 0 <= i < operations.len() ==> (#[trigger] operations[i]).keeps_sink() {
        assert forall|i: int| 0 <= i < kept.len() implies kept[i] by {
            assert(operations[i].keeps_sink());
        }
    } else {
        let i = choose|i: int|
            0 <= i < operations.len() && !(#[trigger] operations[i]).keeps_sink();
        assert(!kept[i]);
    }
}

/// The chunk that one whole operation hands to the sink, if it hands it one.
pub open spec fn hands_over<S, V, E>(sink: Option<S>, operation: Operation<V, E>) -> Seq<V> {
    match operation {
        Operation::Write(chunk, _) => match send_job(sink, chunk) {
            Ok(job) => seq![job.chunk],
            Err(_) => Seq::empty(),
        },
        _ => Seq::empty(),
    }
}

/// The chunks that the given operations hand to the sink, in order.
pub open spec fn hands_over_all<S, V, E>(
    sink: Option<S>,
    operations: Seq<Operation<V, E>>,
) -> Seq<V>
    decreases operations.len(),
{
    if operations.len() == 0 {
        Seq::empty()
    } else {
        hands_over_all(sink, operations.drop_last()) + hands_over(
            after_all(sink, operations.drop_last()),
            operations.last(),
        )
    }
}

/// The writes of `chunks`, all of which succeed.
pub open spec fn writes_of<V, E>(chunks: Seq<V>) -> Seq<Operation<V, E>> {
    chunks.map_values(|chunk: V| Operation::Write(chunk, Some(Ok::<(), E>(()))))
}

/// Over any sequence of operations, the sink is handed every chunk, once and in
/// order, up to the first operation that loses it, with the chunk of that
/// operation where it is a write, and nothing from then on.
pub proof fn chunks_are_written_once_and_in_order<S, V, E>(
    sink: S,
    chunks: Seq<V>,
    rest: Seq<Operation<V, E>>,
)
    requires
        rest.len() > 0 ==> !rest[0].keeps_sink(),
    ensures
        hands_over_all(Some(sink), writes_of(chunks) + rest) == (if rest.len() > 0 {
            match rest[0] {
                Operation::Write(chunk, _) => chunks.push(chunk),
                _ => chunks,
            }
        } else {
            chunks
        }),
    decreases chunks.len() + rest.len(),
{
    let live = writes_of::<V, E>(chunks);
    let operations = live + rest;
    if rest.len() > 0 {
        let before = live + rest.drop_last();
        chunks_are_written_once_and_in_order(sink, chunks, rest.drop_last());
        assert(operations.drop_last() =~= before);
        sink_outlives_exactly_successful_writes(Some(sink), before);
        let reached = after_all(Some(sink), before);
        if rest.len() > 1 {
            assert(!before[live.len() as int].keeps_sink());
            assert(hands_over(reached, operations.last()) =~= Seq::empty());
            assert(hands_over_all(Some(sink), operations) =~= hands_over_all(Some(sink), before));
        } else {
            assert(reached == Some(sink));
            match rest[0] {
                Operation::Write(chunk, _) => {
                    assert(hands_over_all(Some(sink), operations) =~= chunks.push(chunk));
                },
                _ => {
                    assert(hands_over_all(Some(sink), operations) =~= chunks);
                },
            }
        }
    } else if chunks.len() > 0 {
        let before = writes_of::<V, E>(chunks.drop_last());
        chunks_are_written_once_and_in_order(sink, chunks.drop_last(), rest);
        assert(before + rest =~= before);
        assert(operations.drop_last() =~= before);
        sink_outlives_exactly_successful_writes(Some(sink), before);
        assert(hands_over_all(Some(sink), operations) =~= chunks);
    } else {
        assert(hands_over_all(Some(sink), operations) =~= chunks);
    }
}

/// Once the sink is gone, every write and every close throws.
pub proof fn operations_without_sink_throw<S, V, E>(operations: Seq<Operation<V, E>>)
    ensures
        taken(after_all(None::<S>, operations)) == Err::<S, Throw>(Throw::Spent),
        forall|chunk: V| #[trigger]
            send_job(after_all(None::<S>, operations), chunk) == Err::<SendJob<S, V>, Throw>(
                Throw::Spent,
            ),
{
    sink_outlives_exactly_successful_writes(None::<S>, operations);
}

/// The same cell stands behind every callback until the stream is closed or
/// aborted, and none from then on, so that every further callback throws.
pub proof fn sink_is_released_exactly_by_close_or_abort<C>(
    sink: Option<Rc<C>>,
    callbacks: Seq<Callback>,
)
    ensures
        after_callbacks(sink, callbacks) == (if forall|i: int|
            0 <= i < callbacks.len() ==> (#[trigger] callbacks[i]) is Write {
            sink
        } else {
            None
        }),
    decreases callbacks.len(),
{
    if callbacks.len() > 0 {
        let before = callbacks.drop_last();
        sink_is_released_exactly_by_close_or_abort(sink, before);
        if forall|i: int| 0 <= i < before.len() ==> (#[trigger] before[i]) is Write {
            assert forall|i: int| 0 <= i < callbacks.len() - 1 implies (
            #[trigger] callbacks[i]) is Write by {
                assert(before[i] is Write);
            }
            assert(callbacks[callbacks.len() - 1] == callbacks.last());
        } else {
            let i = choose|i: int| 0 <= i < before.len() && !((#[trigger] before[i]) is Write);
            assert(!(callbacks[i] is Write));
        }
    }
}

/// A write hands the very chunk that it was given to the very sink that is
/// there, and throws if and only if there is none.
pub proof fn write_hands_the_chunk_to_the_sink<S, V>(sink: S, chunk: V)
    ensures
        send_job(Some(sink), chunk) == Ok::<SendJob<S, V>, Throw>(SendJob { sink, chunk }),
        send_job(None::<S>, chunk) == Err::<SendJob<S, V>, Throw>(Throw::Spent),
{
}

/// A sink that took a chunk is kept, the very same one; one that failed, whose
/// write was cut short, that was closed or that was aborted is dropped. This is
/// so for every sink, every chunk and every error.
pub proof fn only_a_successful_write_keeps_the_sink<S, V, E>(sink: S, chunk: V, error: E)
    ensures
        after_operation(Some(sink), Operation::<V, E>::Write(chunk, Some(Ok(())))) == Some(sink),
        after_operation(Some(sink), Operation::<V, E>::Write(chunk, Some(Err(error)))) == None::<S>,
        after_operation(Some(sink), Operation::<V, E>::Write(chunk, None)) == None::<S>,
        after_operation(Some(sink), Operation::<V, E>::Close) == None::<S>,
        after_operation(Some(sink), Operation::<V, E>::Abort) == None::<S>,
{
}

/// Writing leaves the sink behind the callbacks as it is; closing and aborting
/// take it away, and nothing brings one back.
pub proof fn callbacks_change_only_what_they_are_for<C>(
    sink: Option<Rc<C>>,
    callback: Callback,
)
    ensures
        after_callback(sink, Callback::Write) == sink,
        after_callback(sink, Callback::Close) is None,
        after_callback(sink, Callback::Abort) is None,
        after_callback(None::<Rc<C>>, callback) is None,
{
}

} // verus!

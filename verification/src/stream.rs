//! The bounded, ordered conduit of rows between two stages.
//!
//! A `Stream` is the state of the conduit. Its operations never wait: where a
//! blocking channel would suspend its caller, `send` answers `Full` and `recv`
//! answers `Empty`, and the state is left as it was. The scheduler that runs
//! the stages suspends the caller on those answers and repeats the call later.

use std::collections::VecDeque;
use vstd::prelude::*;
use crate::errors::{error_view, CrushError, CrushResult, ErrorKind, ErrorView};
use crate::table::{ColumnView, Row, Schema};
use crate::value::ValueView;

verus! {

/// What a row is to the specification: the views of its cells.
pub type RowView = Seq<ValueView>;

/// The mathematical content of a `Stream`.
pub struct StreamView {
    /// The schema, once the stream is bound to one.
    pub schema: Option<Seq<ColumnView>>,
    /// The rows that were sent and not yet received, oldest first.
    pub queue: Seq<RowView>,
    /// The number of rows that the queue may hold.
    pub capacity: nat,
    /// Whether the producer may still send.
    pub sender_open: bool,
    /// Whether the consumer may still receive.
    pub receiver_open: bool,
    /// The error that the producer ended with, if it ended with one.
    pub failure: Option<ErrorView>,
}

/// What a send did with the row.
pub enum SendView {
    Sent,
    Full(RowView),
}

/// What a receive found.
pub enum ReceivedView {
    Row(RowView),
    EndOfData,
    Empty,
}

/// The error for an operation on an end that is closed.
pub open spec fn closed_error() -> ErrorView {
    error_view(ErrorKind::Closed, "Stream is closed"@)
}

/// The error for a send on a stream that has no schema yet.
pub open spec fn unbound_error() -> ErrorView {
    error_view(ErrorKind::Schema, "Stream has no schema"@)
}

/// The error for binding a stream a second time.
pub open spec fn bound_error() -> ErrorView {
    error_view(ErrorKind::AlreadyInitialized, "Stream is already initialized"@)
}

impl StreamView {
    /// A new stream: no schema, no rows, both ends open.
    pub open spec fn empty(capacity: nat) -> StreamView {
        StreamView {
            schema: None,
            queue: Seq::empty(),
            capacity,
            sender_open: true,
            receiver_open: true,
            failure: None,
        }
    }

    /// Whether both ends are open.
    pub open spec fn open(self) -> bool {
        self.sender_open && self.receiver_open
    }

    /// Whether the queue has no room for another row.
    pub open spec fn full(self) -> bool {
        self.queue.len() >= self.capacity
    }

    /// Whether a row sent now would be taken into the queue.
    pub open spec fn accepts(self) -> bool {
        self.open() && self.schema is Some && !self.full()
    }

    /// The answer to binding the stream to a schema.
    pub open spec fn initialize_result(self) -> Result<(), ErrorView> {
        if self.schema is Some {
            Err(bound_error())
        } else {
            Ok(())
        }
    }

    /// The stream after an attempt to bind it to `schema`.
    pub open spec fn after_initialize(self, schema: Seq<ColumnView>) -> StreamView {
        if self.schema is Some {
            self
        } else {
            StreamView { schema: Some(schema), ..self }
        }
    }

    /// The answer to sending `row`.
    pub open spec fn send_result(self, row: RowView) -> Result<SendView, ErrorView> {
        if !self.open() {
            Err(closed_error())
        } else if self.schema is None {
            Err(unbound_error())
        } else if self.full() {
            Ok(SendView::Full(row))
        } else {
            Ok(SendView::Sent)
        }
    }

    /// The stream after an attempt to send `row`: the row joins the back of the
    /// queue if the stream accepts it, and nothing changes if it does not.
    pub open spec fn after_send(self, row: RowView) -> StreamView {
        if self.accepts() {
            StreamView { queue: self.queue.push(row), ..self }
        } else {
            self
        }
    }

    /// The answer to a receive: the oldest row if there is one; with no row
    /// left, the producer's error if it ended with one, the end of the data if
    /// it ended cleanly, and `Empty` while it may still send.
    pub open spec fn recv_result(self) -> Result<ReceivedView, ErrorView> {
        if !self.receiver_open {
            Err(closed_error())
        } else if self.queue.len() > 0 {
            Ok(ReceivedView::Row(self.queue[0]))
        } else if self.failure is Some {
            Err(self.failure.unwrap())
        } else if !self.sender_open {
            Ok(ReceivedView::EndOfData)
        } else {
            Ok(ReceivedView::Empty)
        }
    }

    /// The stream after a receive: the oldest row has left the queue.
    pub open spec fn after_recv(self) -> StreamView {
        if self.receiver_open && self.queue.len() > 0 {
            StreamView { queue: self.queue.drop_first(), ..self }
        } else {
            self
        }
    }

    /// The stream after the producer ended cleanly.
    pub open spec fn after_close(self) -> StreamView {
        StreamView { sender_open: false, ..self }
    }

    /// The stream after the producer ended with `error`. A producer that has
    /// ended already cannot end again.
    pub open spec fn after_fail(self, error: ErrorView) -> StreamView {
        if self.sender_open {
            StreamView { sender_open: false, failure: Some(error), ..self }
        } else {
            self
        }
    }

    /// The stream after the consumer closed its end.
    pub open spec fn after_hang_up(self) -> StreamView {
        StreamView { receiver_open: false, ..self }
    }

    /// The stream after each of `rows` was sent in turn.
    pub open spec fn after_send_all(self, rows: Seq<RowView>) -> StreamView
        decreases rows.len(),
    {
        if rows.len() == 0 {
            self
        } else {
            self.after_send_all(rows.drop_last()).after_send(rows.last())
        }
    }

    /// The stream after `n` receives.
    pub open spec fn after_recv_n(self, n: nat) -> StreamView
        decreases n,
    {
        if n == 0 {
            self
        } else {
            self.after_recv_n((n - 1) as nat).after_recv()
        }
    }
}

/// One step taken on a stream by either of its ends.
pub enum StreamOp {
    Send(RowView),
    Recv,
}

/// The stream after `ops`, applied first to last.
pub open spec fn after_ops(s: StreamView, ops: Seq<StreamOp>) -> StreamView
    decreases ops.len(),
{
    if ops.len() == 0 {
        s
    } else {
        let before = after_ops(s, ops.drop_last());
        match ops.last() {
            StreamOp::Send(row) => before.after_send(row),
            StreamOp::Recv => before.after_recv(),
        }
    }
}

/// The rows that the sends among `ops` placed in the stream, in order.
pub open spec fn accepted(s: StreamView, ops: Seq<StreamOp>) -> Seq<RowView>
    decreases ops.len(),
{
    if ops.len() == 0 {
        Seq::empty()
    } else {
        let before = after_ops(s, ops.drop_last());
        let earlier = accepted(s, ops.drop_last());
        match ops.last() {
            StreamOp::Send(row) => if before.accepts() {
                earlier.push(row)
            } else {
                earlier
            },
            StreamOp::Recv => earlier,
        }
    }
}

/// The rows that the receives among `ops` took out of the stream, in order.
pub open spec fn delivered(s: StreamView, ops: Seq<StreamOp>) -> Seq<RowView>
    decreases ops.len(),
{
    if ops.len() == 0 {
        Seq::empty()
    } else {
        let before = after_ops(s, ops.drop_last());
        let earlier = delivered(s, ops.drop_last());
        match ops.last() {
            StreamOp::Send(_) => earlier,
            StreamOp::Recv => match before.recv_result() {
                Ok(ReceivedView::Row(row)) => earlier.push(row),
                _ => earlier,
            },
        }
    }
}

/// Nothing is lost and nothing changes places: whatever sends and receives are
/// made, in whatever order, the rows received so far followed by the rows
/// still queued are the rows that were queued at the start followed by the
/// rows that the stream accepted since.
pub proof fn lemma_stream_keeps_order(s: StreamView, ops: Seq<StreamOp>)
    ensures
        delivered(s, ops) + after_ops(s, ops).queue == s.queue + accepted(s, ops),
    decreases ops.len(),
{
    if ops.len() == 0 {
        assert(delivered(s, ops) + s.queue =~= s.queue + accepted(s, ops));
    } else {
        let head = ops.drop_last();
        lemma_stream_keeps_order(s, head);
        let before = after_ops(s, head);
        match ops.last() {
            StreamOp::Send(row) => {
                if before.accepts() {
                    assert(delivered(s, head) + before.queue.push(row) =~= (delivered(s, head)
                        + before.queue).push(row));
                    assert((s.queue + accepted(s, head)).push(row) =~= s.queue + accepted(
                        s,
                        head,
                    ).push(row));
                }
            },
            StreamOp::Recv => {
                if before.receiver_open && before.queue.len() > 0 {
                    assert(delivered(s, head).push(before.queue[0]) + before.queue.drop_first()
                        =~= delivered(s, head) + before.queue);
                }
            },
        }
    }
}

/// A send that finds the queue full changes nothing and hands the row back:
/// the row is neither dropped nor queued out of turn, and is sent once the
/// consumer has made room.
pub proof fn lemma_full_send_waits(s: StreamView, row: RowView)
    requires
        s.open(),
        s.schema is Some,
        s.queue.len() == s.capacity,
        s.capacity > 0,
    ensures
        s.send_result(row) == Ok::<SendView, ErrorView>(SendView::Full(row)),
        s.after_send(row) == s,
        s.after_recv().send_result(row) == Ok::<SendView, ErrorView>(SendView::Sent),
        s.after_recv().after_send(row).queue == s.queue.drop_first().push(row),
{
}

/// A queue that is within the capacity stays within it, whatever sends and
/// receives are made.
pub proof fn lemma_stream_stays_bounded(s: StreamView, ops: Seq<StreamOp>)
    requires
        s.queue.len() <= s.capacity,
    ensures
        after_ops(s, ops).queue.len() <= s.capacity,
        after_ops(s, ops).capacity == s.capacity,
    decreases ops.len(),
{
    if ops.len() > 0 {
        lemma_stream_stays_bounded(s, ops.drop_last());
    }
}

/// Sending rows that fit into an empty, bound and open stream queues them all,
/// in order.
pub proof fn lemma_send_all(s: StreamView, rows: Seq<RowView>)
    requires
        s.open(),
        s.schema is Some,
        s.queue.len() + rows.len() <= s.capacity,
    ensures
        s.after_send_all(rows) == (StreamView { queue: s.queue + rows, ..s }),
    decreases rows.len(),
{
    if rows.len() == 0 {
        assert(s.queue + rows =~= s.queue);
    } else {
        lemma_send_all(s, rows.drop_last());
        assert((s.queue + rows.drop_last()).push(rows.last()) =~= s.queue + rows);
    }
}

proof fn lemma_recv_n(s: StreamView, n: nat)
    requires
        s.receiver_open,
        n <= s.queue.len(),
    ensures
        s.after_recv_n(n) == (StreamView { queue: s.queue.subrange(n as int, s.queue.len() as int), ..s }),
    decreases n,
{
    if n == 0 {
        assert(s.queue.subrange(0, s.queue.len() as int) =~= s.queue);
    } else {
        lemma_recv_n(s, (n - 1) as nat);
        assert(s.queue.subrange(n - 1, s.queue.len() as int).drop_first() =~= s.queue.subrange(
            n as int,
            s.queue.len() as int,
        ));
    }
}

/// Rows sent into an empty stream and then received come out as they went in,
/// first to last, and after the last of them comes the end of the data.
pub proof fn lemma_send_then_receive(s: StreamView, rows: Seq<RowView>, i: nat)
    requires
        s.open(),
        s.schema is Some,
        s.failure is None,
        s.queue.len() == 0,
        rows.len() <= s.capacity,
        i <= rows.len(),
    ensures
        i < rows.len() ==> s.after_send_all(rows).after_close().after_recv_n(i).recv_result()
            == Ok::<ReceivedView, ErrorView>(ReceivedView::Row(rows[i as int])),
        i == rows.len() ==> s.after_send_all(rows).after_close().after_recv_n(i).recv_result()
            == Ok::<ReceivedView, ErrorView>(ReceivedView::EndOfData),
{
    lemma_send_all(s, rows);
    assert(s.queue + rows =~= rows);
    let closed = s.after_send_all(rows).after_close();
    lemma_recv_n(closed, i);
}

/// A stream that its producer closed before it sent anything answers the first
/// receive with the end of the data.
pub proof fn lemma_closed_before_send(capacity: nat, schema: Option<Seq<ColumnView>>)
    ensures
        (StreamView { schema, ..StreamView::empty(capacity) }).after_close().recv_result()
            == Ok::<ReceivedView, ErrorView>(ReceivedView::EndOfData),
{
}

/// What a send did with the row: a row that found the queue full comes back.
#[derive(Debug, PartialEq, Eq)]
pub enum SendOutcome {
    Sent,
    Full(Row),
}

impl View for SendOutcome {
    type V = SendView;

    open spec fn view(&self) -> SendView {
        match self {
            SendOutcome::Sent => SendView::Sent,
            SendOutcome::Full(row) => SendView::Full(row@),
        }
    }
}

/// What a receive found.
#[derive(Debug, PartialEq, Eq)]
pub enum Received {
    /// The oldest row of the queue.
    Row(Row),
    /// The producer has ended and every row was received.
    EndOfData,
    /// No row is there yet, and the producer may still send one.
    Empty,
}

impl View for Received {
    type V = ReceivedView;

    open spec fn view(&self) -> ReceivedView {
        match self {
            Received::Row(row) => ReceivedView::Row(row@),
            Received::EndOfData => ReceivedView::EndOfData,
            Received::Empty => ReceivedView::Empty,
        }
    }
}

/// The views of a queue of rows, oldest first.
pub open spec fn rows_of(queue: Seq<Row>) -> Seq<RowView> {
    Seq::new(queue.len(), |i: int| queue[i]@)
}

/// The view of an optional schema.
pub open spec fn schema_of(schema: Option<Schema>) -> Option<Seq<ColumnView>> {
    match schema {
        Some(s) => Some(s@),
        None => None,
    }
}

/// The view of an optional error.
pub open spec fn failure_of(failure: Option<CrushError>) -> Option<ErrorView> {
    match failure {
        Some(e) => Some(e@),
        None => None,
    }
}

/// The state of a bounded conduit of rows.
#[derive(Debug, PartialEq, Eq)]
pub struct Stream {
    schema: Option<Schema>,
    queue: VecDeque<Row>,
    capacity: usize,
    sender_open: bool,
    receiver_open: bool,
    failure: Option<CrushError>,
}

impl View for Stream {
    type V = StreamView;

    closed spec fn view(&self) -> StreamView {
        StreamView {
            schema: schema_of(self.schema),
            queue: rows_of(self.queue@),
            capacity: self.capacity as nat,
            sender_open: self.sender_open,
            receiver_open: self.receiver_open,
            failure: failure_of(self.failure),
        }
    }
}

impl Stream {
    /// A new stream that can hold `capacity` rows: no schema, no rows, both
    /// ends open.
    pub fn new(capacity: usize) -> (s: Stream)
        ensures
            s@ == StreamView::empty(capacity as nat),
    {
        let s = Stream {
            schema: None,
            queue: VecDeque::new(),
            capacity,
            sender_open: true,
            receiver_open: true,
            failure: None,
        };
        assert(s@.queue =~= Seq::<RowView>::empty());
        s
    }

    /// Binds the stream to `schema`. A stream can be bound once.
    pub fn initialize(&mut self, schema: Schema) -> (r: CrushResult<()>)
        ensures
            final(self)@ == old(self)@.after_initialize(schema@),
            match r {
                Ok(_) => old(self)@.initialize_result() is Ok,
                Err(e) => old(self)@.initialize_result() == Err::<(), ErrorView>(e@),
            },
    {
        if self.schema.is_some() {
            return Err(CrushError::new(ErrorKind::AlreadyInitialized, "Stream is already initialized"));
        }
        self.schema = Some(schema);
        Ok(())
    }

    /// The schema, once the stream is bound to one.
    pub fn schema(&self) -> (schema: Option<&Schema>)
        ensures
            match schema {
                Some(s) => self@.schema == Some(s@),
                None => self@.schema is None,
            },
    {
        self.schema.as_ref()
    }

    /// The number of rows in the queue.
    pub fn len(&self) -> (n: usize)
        ensures
            n == self@.queue.len(),
    {
        self.queue.len()
    }

    /// The number of rows that the queue may hold.
    pub fn capacity(&self) -> (n: usize)
        ensures
            n == self@.capacity,
    {
        self.capacity
    }

    /// Whether the queue has no room for another row.
    pub fn is_full(&self) -> (r: bool)
        ensures
            r == self@.full(),
    {
        self.queue.len() >= self.capacity
    }

    /// Whether the consumer's end is open.
    pub fn recv_open(&self) -> (r: bool)
        ensures
            r == self@.receiver_open,
    {
        self.receiver_open
    }

    /// Whether both ends are open.
    pub fn is_open(&self) -> (r: bool)
        ensures
            r == self@.open(),
    {
        self.sender_open && self.receiver_open
    }

    /// Sends `row`. The row joins the back of the queue, unless an end is
    /// closed or the stream has no schema, which is an error, or the queue is
    /// full, in which case the row comes back and the caller is to wait.
    pub fn send(&mut self, row: Row) -> (r: CrushResult<SendOutcome>)
        ensures
            final(self)@ == old(self)@.after_send(row@),
            match r {
                Ok(outcome) => old(self)@.send_result(row@) == Ok::<SendView, ErrorView>(outcome@),
                Err(e) => old(self)@.send_result(row@) == Err::<SendView, ErrorView>(e@),
            },
    {
        if !(self.sender_open && self.receiver_open) {
            return Err(CrushError::new(ErrorKind::Closed, "Stream is closed"));
        }
        if self.schema.is_none() {
            return Err(CrushError::new(ErrorKind::Schema, "Stream has no schema"));
        }
        if self.queue.len() >= self.capacity {
            return Ok(SendOutcome::Full(row));
        }
        let ghost before = rows_of(self.queue@);
        self.queue.push_back(row);
        assert(rows_of(self.queue@) =~= before.push(row@));
        Ok(SendOutcome::Sent)
    }

    /// Receives the oldest row.
    pub fn recv(&mut self) -> (r: CrushResult<Received>)
        ensures
            final(self)@ == old(self)@.after_recv(),
            match r {
                Ok(found) => old(self)@.recv_result() == Ok::<ReceivedView, ErrorView>(found@),
                Err(e) => old(self)@.recv_result() == Err::<ReceivedView, ErrorView>(e@),
            },
    {
        if !self.receiver_open {
            return Err(CrushError::new(ErrorKind::Closed, "Stream is closed"));
        }
        let ghost before = rows_of(self.queue@);
        match self.queue.pop_front() {
            Some(row) => {
                assert(rows_of(self.queue@) =~= before.drop_first());
                assert(before[0] == row@);
                Ok(Received::Row(row))
            },
            None => {
                assert(rows_of(self.queue@) =~= before);
                match &self.failure {
                    Some(e) => Err(e.duplicate()),
                    None => if self.sender_open {
                        Ok(Received::Empty)
                    } else {
                        Ok(Received::EndOfData)
                    },
                }
            },
        }
    }

    /// Ends the stream cleanly from the producer's side.
    pub fn close(&mut self)
        ensures
            final(self)@ == old(self)@.after_close(),
    {
        self.sender_open = false;
    }

    /// Ends the stream from the producer's side with `error`, which the
    /// consumer receives once it has received every row.
    pub fn fail(&mut self, error: CrushError)
        ensures
            final(self)@ == old(self)@.after_fail(error@),
    {
        if self.sender_open {
            self.sender_open = false;
            self.failure = Some(error);
        }
    }

    /// Closes the consumer's end.
    pub fn hang_up(&mut self)
        ensures
            final(self)@ == old(self)@.after_hang_up(),
    {
        self.receiver_open = false;
    }
}

} // verus!

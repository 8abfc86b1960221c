//! Lines typed at the host's prompt, matched with the tasks that read them.
//!
//! A reader that asks for a line gets the oldest buffered line at once, or
//! waits in line; a typed line goes to the oldest waiting reader, or is
//! buffered. Both queues are bounded ring buffers of `QUEUE_CAPACITY` items.

use vstd::prelude::*;
use ringbuf::HeapRb;
use ringbuf::Rb;

verus! {

/// Number of waiting readers, and of buffered lines, that the queue holds.
pub const QUEUE_CAPACITY: usize = 128;

/// A bounded first-in first-out ring buffer of reader ids
/// (a `ringbuf::HeapRb<u64>`).
#[verifier::external_body]
pub struct ReaderRing {
    rb: HeapRb<u64>,
}

/// A bounded first-in first-out ring buffer of lines
/// (a `ringbuf::HeapRb<String>`).
#[verifier::external_body]
pub struct LineRing {
    rb: HeapRb<String>,
}

/// What a ring of waiting readers holds, oldest first.
pub uninterp spec fn ring_readers(ring: ReaderRing) -> Seq<u64>;

/// The capacity that a ring of readers was made with.
pub uninterp spec fn ring_reader_capacity(ring: ReaderRing) -> nat;

/// What a ring of lines holds, oldest first.
pub uninterp spec fn ring_lines(ring: LineRing) -> Seq<String>;

/// The capacity that a ring of lines was made with.
pub uninterp spec fn ring_line_capacity(ring: LineRing) -> nat;

/// `HeapRb::new`: an empty ring buffer of the given capacity
/// (the crate panics on a capacity of zero, which `requires` leaves out).
#[verifier::external_body]
fn new_reader_ring(capacity: usize) -> (ring: ReaderRing)
    requires
        capacity > 0,
    ensures
        ring_readers(ring) == Seq::<u64>::empty(),
        ring_reader_capacity(ring) == capacity,
{
    ReaderRing { rb: HeapRb::<u64>::new(capacity) }
}

/// `Rb::push`: appends at the back unless the buffer is full, in which case
/// it hands the item back and leaves the buffer as it was.
#[verifier::external_body]
fn push_reader(ring: &mut ReaderRing, id: u64) -> (r: Result<(), u64>)
    ensures
        ring_reader_capacity(*final(ring)) == ring_reader_capacity(*old(ring)),
        r is Ok <==> ring_readers(*old(ring)).len() < ring_reader_capacity(*old(ring)),
        r is Ok ==> ring_readers(*final(ring)) == ring_readers(*old(ring)).push(id),
        r is Err ==> ring_readers(*final(ring)) == ring_readers(*old(ring)),
        r is Err ==> r->Err_0 == id,
{
    ring.rb.push(id)
}

/// `Rb::pop`: removes and returns the oldest item, or `None` when empty.
#[verifier::external_body]
fn pop_reader(ring: &mut ReaderRing) -> (r: Option<u64>)
    ensures
        ring_reader_capacity(*final(ring)) == ring_reader_capacity(*old(ring)),
        r is Some <==> ring_readers(*old(ring)).len() > 0,
        r is Some ==> r->0 == ring_readers(*old(ring))[0],
        r is Some ==> ring_readers(*final(ring)) == ring_readers(*old(ring)).drop_first(),
        r is None ==> ring_readers(*final(ring)) == ring_readers(*old(ring)),
{
    ring.rb.pop()
}

/// `HeapRb::new`: an empty ring buffer of the given capacity
/// (the crate panics on a capacity of zero, which `requires` leaves out).
#[verifier::external_body]
fn new_line_ring(capacity: usize) -> (ring: LineRing)
    requires
        capacity > 0,
    ensures
        ring_lines(ring) == Seq::<String>::empty(),
        ring_line_capacity(ring) == capacity,
{
    LineRing { rb: HeapRb::<String>::new(capacity) }
}

/// `Rb::push`: appends at the back unless the buffer is full, in which case
/// it hands the item back and leaves the buffer as it was.
#[verifier::external_body]
fn push_line(ring: &mut LineRing, line: String) -> (r: Result<(), String>)
    ensures
        ring_line_capacity(*final(ring)) == ring_line_capacity(*old(ring)),
        r is Ok <==> ring_lines(*old(ring)).len() < ring_line_capacity(*old(ring)),
        r is Ok ==> ring_lines(*final(ring)) == ring_lines(*old(ring)).push(line),
        r is Err ==> ring_lines(*final(ring)) == ring_lines(*old(ring)),
        r is Err ==> r->Err_0 == line,
{
    ring.rb.push(line)
}

/// `Rb::pop`: removes and returns the oldest item, or `None` when empty.
#[verifier::external_body]
fn pop_line(ring: &mut LineRing) -> (r: Option<String>)
    ensures
        ring_line_capacity(*final(ring)) == ring_line_capacity(*old(ring)),
        r is Some <==> ring_lines(*old(ring)).len() > 0,
        r is Some ==> r->0 == ring_lines(*old(ring))[0],
        r is Some ==> ring_lines(*final(ring)) == ring_lines(*old(ring)).drop_first(),
        r is None ==> ring_lines(*final(ring)) == ring_lines(*old(ring)),
{
    ring.rb.pop()
}

/// The abstract state of an input queue: the readers waiting for a line and
/// the lines waiting for a reader, oldest first.
pub ghost struct QueueView {
    pub readers: Seq<u64>,
    pub lines: Seq<String>,
}

/// What the queue keeps true: neither queue exceeds its capacity, and a line
/// is never buffered while a reader waits.
pub open spec fn queue_invariant(v: QueueView) -> bool {
    &&& v.readers.len() <= QUEUE_CAPACITY
    &&& v.lines.len() <= QUEUE_CAPACITY
    &&& (v.readers.len() == 0 || v.lines.len() == 0)
}

/// A reader asks for a line: it takes the oldest buffered line, or waits at
/// the back of the readers; `Err` hands the reader back when too many wait.
pub open spec fn request_step(v: QueueView, reader: u64) -> (QueueView, Result<Option<String>, u64>) {
    if v.lines.len() > 0 {
        (QueueView { readers: v.readers, lines: v.lines.drop_first() }, Ok(Some(v.lines[0])))
    } else if v.readers.len() < QUEUE_CAPACITY {
        (QueueView { readers: v.readers.push(reader), lines: v.lines }, Ok(None))
    } else {
        (v, Err(reader))
    }
}

/// A line is typed: it goes to the oldest waiting reader, or is buffered at
/// the back of the lines; `Err` hands the line back when too many are buffered.
pub open spec fn deliver_step(v: QueueView, line: String) -> (QueueView, Result<Option<(u64, String)>, String>) {
    if v.readers.len() > 0 {
        (QueueView { readers: v.readers.drop_first(), lines: v.lines }, Ok(Some((v.readers[0], line))))
    } else if v.lines.len() < QUEUE_CAPACITY {
        (QueueView { readers: v.readers, lines: v.lines.push(line) }, Ok(None))
    } else {
        (v, Err(line))
    }
}

/// One thing that happens to the queue: a reader asks for a line, or a line
/// is typed.
pub enum QueueEvent {
    Request(u64),
    Deliver(String),
}

/// What a run of events did: the readers that asked for a line and the
/// lines typed, each in order; the pairs of a reader and the line it got,
/// in the order they were handed out; and whether some step was refused for
/// want of room.
pub ghost struct Trace {
    pub requested: Seq<u64>,
    pub typed: Seq<String>,
    pub handed: Seq<(u64, String)>,
    pub refused: bool,
}

/// The trace of a single event.
pub open spec fn event_step(v: QueueView, e: QueueEvent) -> (QueueView, Trace) {
    match e {
        QueueEvent::Request(id) => {
            let (v1, r) = request_step(v, id);
            let t = match r {
                Ok(Some(line)) => Trace { requested: seq![id], typed: seq![], handed: seq![(id, line)], refused: false },
                Ok(None) => Trace { requested: seq![id], typed: seq![], handed: seq![], refused: false },
                Err(_) => Trace { requested: seq![id], typed: seq![], handed: seq![], refused: true },
            };
            (v1, t)
        },
        QueueEvent::Deliver(line) => {
            let (v1, r) = deliver_step(v, line);
            let t = match r {
                Ok(Some((id, l))) => Trace { requested: seq![], typed: seq![line], handed: seq![(id, l)], refused: false },
                Ok(None) => Trace { requested: seq![], typed: seq![line], handed: seq![], refused: false },
                Err(_) => Trace { requested: seq![], typed: seq![line], handed: seq![], refused: true },
            };
            (v1, t)
        },
    }
}

/// The state after a run of events, and its trace.
pub open spec fn run_events(v: QueueView, events: Seq<QueueEvent>) -> (QueueView, Trace)
    decreases events.len(),
{
    if events.len() == 0 {
        (v, Trace { requested: seq![], typed: seq![], handed: seq![], refused: false })
    } else {
        let (v1, t1) = event_step(v, events[0]);
        let (vf, tr) = run_events(v1, events.drop_first());
        (vf, Trace {
            requested: t1.requested + tr.requested,
            typed: t1.typed + tr.typed,
            handed: t1.handed + tr.handed,
            refused: t1.refused || tr.refused,
        })
    }
}

/// Every step keeps the queue invariant: at most `QUEUE_CAPACITY` readers
/// wait, at most `QUEUE_CAPACITY` lines are buffered, and never a line while
/// a reader waits.
pub proof fn lemma_steps_keep_invariant(v: QueueView, reader: u64, line: String)
    requires
        queue_invariant(v),
    ensures
        queue_invariant(request_step(v, reader).0),
        queue_invariant(deliver_step(v, line).0),
{
}

/// The queue refuses only for want of room: a typed line goes to the oldest
/// waiting reader whatever its text, is buffered at the back while fewer
/// than `QUEUE_CAPACITY` lines wait and no reader does, and is handed back
/// only when no reader waits and the buffer is full; likewise a reader gets
/// the oldest buffered line, waits while fewer than `QUEUE_CAPACITY` readers
/// wait and no line does, and is handed back only when none is buffered
/// and the readers are full.
pub proof fn lemma_refused_only_when_full(v: QueueView, reader: u64, line: String)
    ensures
        v.readers.len() > 0 ==> deliver_step(v, line).1 == Ok::<Option<(u64, String)>, String>(Some((v.readers[0], line)))
            && deliver_step(v, line).0.readers == v.readers.drop_first()
            && deliver_step(v, line).0.lines == v.lines,
        v.readers.len() == 0 && v.lines.len() < QUEUE_CAPACITY ==> deliver_step(v, line).1 == Ok::<Option<(u64, String)>, String>(None)
            && deliver_step(v, line).0.lines == v.lines.push(line)
            && deliver_step(v, line).0.readers == v.readers,
        deliver_step(v, line).1 is Err ==> v.readers.len() == 0 && v.lines.len() >= QUEUE_CAPACITY
            && deliver_step(v, line).0 == v,
        v.lines.len() > 0 ==> request_step(v, reader).1 == Ok::<Option<String>, u64>(Some(v.lines[0]))
            && request_step(v, reader).0.lines == v.lines.drop_first()
            && request_step(v, reader).0.readers == v.readers,
        v.lines.len() == 0 && v.readers.len() < QUEUE_CAPACITY ==> request_step(v, reader).1 == Ok::<Option<String>, u64>(None)
            && request_step(v, reader).0.readers == v.readers.push(reader)
            && request_step(v, reader).0.lines == v.lines,
        request_step(v, reader).1 is Err ==> v.lines.len() == 0 && v.readers.len() >= QUEUE_CAPACITY
            && request_step(v, reader).0 == v,
{
}

/// The readers in line for a run: those waiting at its start, then those
/// that asked during it.
pub open spec fn readers_in_line(v: QueueView, t: Trace) -> Seq<u64> {
    v.readers + t.requested
}

/// The lines in line for a run: those buffered at its start, then those
/// typed during it.
pub open spec fn lines_in_line(v: QueueView, t: Trace) -> Seq<String> {
    v.lines + t.typed
}

/// The k-th reader gets the k-th line: over any run in which no step is
/// refused, the k-th pair handed out is the k-th reader in line with the
/// k-th line in line; each reader and each line is handed out once; those
/// not handed out are what still waits, in order; and the queue invariant
/// holds at the end.
pub proof fn lemma_kth_reader_gets_kth_line(v: QueueView, events: Seq<QueueEvent>)
    requires
        queue_invariant(v),
        !run_events(v, events).1.refused,
    ensures
        ({
            let (vf, t) = run_events(v, events);
            let n = t.handed.len();
            &&& queue_invariant(vf)
            &&& n <= readers_in_line(v, t).len()
            &&& n <= lines_in_line(v, t).len()
            &&& forall|k: int| 0 <= k < n ==> #[trigger] t.handed[k] == (readers_in_line(v, t)[k], lines_in_line(v, t)[k])
            &&& vf.readers == readers_in_line(v, t).skip(n as int)
            &&& vf.lines == lines_in_line(v, t).skip(n as int)
        }),
    decreases events.len(),
{
    if events.len() == 0 {
        assert(v.readers + Seq::<u64>::empty() =~= v.readers);
        assert(v.lines + Seq::<String>::empty() =~= v.lines);
        assert(v.readers.skip(0) =~= v.readers);
        assert(v.lines.skip(0) =~= v.lines);
    } else {
        let e = events[0];
        let (v1, t1) = event_step(v, e);
        let rest = events.drop_first();
        let (vf, tr) = run_events(v1, rest);
        let t = run_events(v, events).1;
        assert(queue_invariant(v1)) by {
            match e {
                QueueEvent::Request(id) => lemma_steps_keep_invariant(v, id, arbitrary()),
                QueueEvent::Deliver(l) => lemma_steps_keep_invariant(v, 0, l),
            }
        }
        lemma_kth_reader_gets_kth_line(v1, rest);
        let r1 = readers_in_line(v1, tr);
        let l1 = lines_in_line(v1, tr);
        let r = readers_in_line(v, t);
        let l = lines_in_line(v, t);
        let n1 = tr.handed.len();
        if t1.handed.len() == 0 {
            // the reader or the line joins the back of its line
            assert(r =~= r1);
            assert(l =~= l1);
            assert(t.handed =~= tr.handed);
        } else {
            // the step hands out the front reader with the front line
            assert(r =~= seq![r[0]] + r1);
            assert(l =~= seq![l[0]] + l1);
            assert(t1.handed[0] == (r[0], l[0]));
            assert(t.handed =~= seq![t1.handed[0]] + tr.handed);
            assert forall|k: int| 0 <= k < n1 + 1 implies #[trigger] t.handed[k] == (r[k], l[k]) by {
                if k > 0 {
                    assert(t.handed[k] == tr.handed[k - 1]);
                }
            }
            assert(r.skip(n1 + 1int) =~= r1.skip(n1 as int));
            assert(l.skip(n1 + 1int) =~= l1.skip(n1 as int));
        }
    }
}

/// The readers of typed lines and the lines not yet read.
pub struct InputQueue {
    readers: ReaderRing,
    lines: LineRing,
}

impl View for InputQueue {
    type V = QueueView;

    closed spec fn view(&self) -> QueueView {
        QueueView { readers: ring_readers(self.readers), lines: ring_lines(self.lines) }
    }
}

impl InputQueue {
    /// Both rings hold `QUEUE_CAPACITY` items and the queue invariant holds.
    pub closed spec fn wf(&self) -> bool {
        &&& ring_reader_capacity(self.readers) == QUEUE_CAPACITY
        &&& ring_line_capacity(self.lines) == QUEUE_CAPACITY
        &&& queue_invariant(self@)
    }

    /// An empty queue.
    pub fn new() -> (q: Self)
        ensures
            q.wf(),
            q@.readers == Seq::<u64>::empty(),
            q@.lines == Seq::<String>::empty(),
    {
        InputQueue {
            readers: new_reader_ring(QUEUE_CAPACITY),
            lines: new_line_ring(QUEUE_CAPACITY),
        }
    }

    /// A reader asks for a line (`Ok(Some(line))`: it gets one at once;
    /// `Ok(None)`: it waits for the next typed line; `Err`: too many wait).
    ///
    /// When `QUEUE_CAPACITY` readers already wait, the reader is handed back
    /// and nothing changes; the host treats that as a fatal error.
    pub fn request_line(&mut self, reader: u64) -> (r: Result<Option<String>, u64>)
        requires
            old(self).wf(),
        ensures
            final(self).wf(),
            (final(self)@, r) == request_step(old(self)@, reader),
    {
        match pop_line(&mut self.lines) {
            Some(line) => Ok(Some(line)),
            None => match push_reader(&mut self.readers, reader) {
                Ok(()) => Ok(None),
                Err(reader) => Err(reader),
            },
        }
    }

    /// A line is typed (`Ok(Some((reader, line)))`: the line and the reader
    /// to hand it to; `Ok(None)`: it is buffered; `Err`: too many lines are
    /// buffered, and the line is handed back).
    ///
    /// When `QUEUE_CAPACITY` lines are already buffered and no reader waits,
    /// the line is handed back and nothing changes; the host treats that as a
    /// fatal error.
    pub fn deliver_line(&mut self, line: String) -> (r: Result<Option<(u64, String)>, String>)
        requires
            old(self).wf(),
        ensures
            final(self).wf(),
            (final(self)@, r) == deliver_step(old(self)@, line),
    {
        match pop_reader(&mut self.readers) {
            Some(reader) => Ok(Some((reader, line))),
            None => match push_line(&mut self.lines, line) {
                Ok(()) => Ok(None),
                Err(line) => Err(line),
            },
        }
    }
}

} // verus!

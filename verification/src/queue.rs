//! The agent's two-stage queue pipeline: raw lines flow from the tailer
//! to the classifier, serialized envelopes from the classifier to the
//! transport. The queues are shared, unbounded, concurrent FIFO queues of
//! an outside crate; this module holds the trusted view of their calls and
//! the verified burst logic around them.
use vstd::prelude::*;

use crate::error::ClientError;
use crate::log_handler::LogHandler;

verus! {

/// Relies on `concurrent_queue::ConcurrentQueue`: the declaration that
/// lets the shared queue type stand in signatures. Values of it are opaque
/// here; only the wrappers below touch them.
#[verifier::external_type_specification]
#[verifier::external_body]
#[verifier::reject_recursive_types(T)]
pub struct ExConcurrentQueue<T>(concurrent_queue::ConcurrentQueue<T>);

/// What one pop of a shared queue yielded. Other tasks push and pop the
/// same queue concurrently, so nothing relates two calls.
pub enum QueuePop {
    /// An item from the head of the queue.
    Item(String),
    /// The queue held nothing at that moment.
    Empty,
    /// The queue was closed: a terminal state.
    Closed,
}

/// Relies on `ConcurrentQueue::pop`: yields an item from the queue's
/// head, or reports the queue momentarily empty, or closed and empty.
#[verifier::external_body]
fn queue_pop(q: &concurrent_queue::ConcurrentQueue<String>) -> (r: QueuePop) {
    match q.pop() {
        Ok(s) => QueuePop::Item(s),
        Err(concurrent_queue::PopError::Empty) => QueuePop::Empty,
        Err(concurrent_queue::PopError::Closed) => QueuePop::Closed,
    }
}

/// Relies on `ConcurrentQueue::push`: enqueues the value, or hands it
/// back when the queue is full or closed.
#[verifier::external_body]
fn queue_push(q: &concurrent_queue::ConcurrentQueue<String>, value: String) -> (r: Option<
    String>) {
    match q.push(value) {
        Ok(()) => None,
        Err(e) => Some(e.into_inner()),
    }
}

/// Relies on `ConcurrentQueue::len`: the number of items at that moment.
#[verifier::external_body]
pub(crate) fn queue_len(q: &concurrent_queue::ConcurrentQueue<String>) -> (r: usize) {
    q.len()
}

/// Whether a drain loop should keep waiting before its burst: fewer than
/// ten queued items and fewer than ten waits so far.
pub fn should_wait(queue_len: usize, waits: u32) -> (r: bool)
    ensures
        r == (waits < 10 && queue_len < 10),
{
    waits < 10 && queue_len < 10
}

impl LogHandler {
    /// One classification burst: pops up to ten raw lines, classifies
    /// each, and pushes every resulting envelope text onto the outbound
    /// queue. A failed line never blocks the others. Returns how many
    /// lines were taken; a closed queue is the one fatal condition.
    pub fn classify_burst(
        &self,
        raw: &concurrent_queue::ConcurrentQueue<String>,
        out: &concurrent_queue::ConcurrentQueue<String>,
        now: u32,
    ) -> (r: Result<usize, ClientError>)
        ensures
            r matches Ok(n) ==> n <= 10,
            r is Err ==> r matches Err(ClientError::QueueError(_)),
    {
        let mut taken: usize = 0;
        loop
            invariant_except_break
                taken < 10,
            ensures
                taken <= 10,
            decreases 10 - taken,
        {
            match queue_pop(raw) {
                QueuePop::Item(line) => {
                    taken = taken + 1;
                    match self.handler_metrics(line, now) {
                        Some(envelope) => {
                            match queue_push(out, envelope) {
                                None => {},
                                Some(_) => {
                                    return Err(ClientError::QueueError(String::from_str(
                                        "outbound queue rejected an envelope",
                                    )));
                                },
                            }
                        },
                        None => {},
                    }
                    if taken == 10 {
                        break;
                    }
                },
                QueuePop::Empty => {
                    break;
                },
                QueuePop::Closed => {
                    if taken == 0 {
                        return Err(ClientError::QueueError(String::from_str(
                            "raw line queue closed",
                        )));
                    }
                    // mid-burst closure: finish this burst; the next cycle's
                    // first pop reports the terminal state
                    break;
                },
            }
        }
        Ok(taken)
    }
}

/// The envelopes joined with commas, as they stand inside a batch body.
pub open spec fn spec_join_batch(items: Seq<Seq<char>>) -> Seq<char>
    decreases items.len(),
{
    if items.len() == 0 {
        Seq::empty()
    } else if items.len() == 1 {
        items[0]
    } else {
        items[0] + seq![','] + spec_join_batch(items.subrange(1, items.len() as int))
    }
}

/// The batch body posted to the gateway: the envelopes joined with commas
/// between brackets.
pub open spec fn spec_batch_body(items: Seq<Seq<char>>) -> Seq<char> {
    seq!['['] + spec_join_batch(items) + seq![']']
}

/// One more envelope extends a joined batch by a comma and itself.
proof fn lemma_join_batch_take(items: Seq<Seq<char>>, i: int)
    requires
        0 < i <= items.len(),
    ensures
        i == 1 ==> spec_join_batch(items.subrange(0, 1)) == items[0],
        i > 1 ==> spec_join_batch(items.subrange(0, i)) == spec_join_batch(
            items.subrange(0, i - 1)) + seq![','] + items[i - 1],
    decreases i,
{
    if i == 1 {
        assert(items.subrange(0, 1).len() == 1);
        assert(items.subrange(0, 1)[0] == items[0]);
    } else {
        lemma_join_batch_take(items.subrange(1, items.len() as int), i - 1);
        let a = items.subrange(0, i);
        let b = items.subrange(0, i - 1);
        assert(a[0] == items[0]);
        assert(b[0] == items[0]);
        assert(a.subrange(1, a.len() as int) =~= items.subrange(1,
            items.len() as int).subrange(0, i - 1));
        if i - 1 == 1 {
            assert(items.subrange(1, items.len() as int).subrange(0, 1)[0] == items[1]);
            assert(spec_join_batch(a) =~= spec_join_batch(b) + seq![','] + items[i - 1]);
        } else {
            assert(b.subrange(1, b.len() as int) =~= items.subrange(1,
                items.len() as int).subrange(0, i - 2));
            assert(items.subrange(1, items.len() as int)[i - 2] == items[i - 1]);
            assert(spec_join_batch(a) =~= spec_join_batch(b) + seq![','] + items[i - 1]);
        }
    }
}

/// Joins envelope texts into one batch body.
pub fn build_batch_body(items: &Vec<String>) -> (r: String)
    ensures
        r@ == spec_batch_body(crate::consumer_backend::views_of(items@)),
{
    let ghost iv = crate::consumer_backend::views_of(items@);
    let mut s: String = String::new();
    crate::text::push_char(&mut s, '[');
    let mut i: usize = 0;
    proof {
        assert(iv.subrange(0, 0) =~= Seq::<Seq<char>>::empty());
        assert(s@ =~= seq!['['] + spec_join_batch(iv.subrange(0, 0)));
    }
    while i < items.len()
        invariant
            i <= items@.len(),
            iv == crate::consumer_backend::views_of(items@),
            iv.len() == items@.len(),
            s@ == seq!['['] + spec_join_batch(iv.subrange(0, i as int)),
        decreases items@.len() - i,
    {
        if i > 0 {
            crate::text::push_char(&mut s, ',');
        }
        s.append(items[i].as_str());
        proof {
            assert(items@[i as int]@ == iv[i as int]);
            lemma_join_batch_take(iv, i as int + 1);
            if i == 0 {
                assert(iv.subrange(0, 1)[0] == iv[0]);
                assert(s@ =~= seq!['['] + spec_join_batch(iv.subrange(0, 1)));
            } else {
                assert(s@ =~= seq!['['] + spec_join_batch(iv.subrange(0, i as int + 1)));
            }
        }
        i = i + 1;
    }
    crate::text::push_char(&mut s, ']');
    proof {
        assert(iv.subrange(0, iv.len() as int) =~= iv);
        assert(s@ =~= spec_batch_body(iv));
    }
    s
}

/// One transport burst: pops up to ten serialized envelopes and, when any
/// came, joins them into one batch body for a single post to the gateway.
/// Returns the envelopes and the body; a closed queue is the one fatal
/// condition.
pub fn collect_send_batch(q: &concurrent_queue::ConcurrentQueue<String>) -> (r: Result<
    (Vec<String>, Option<String>), ClientError>)
    ensures
        r matches Ok(p) ==> ({
            &&& p.0@.len() <= 10
            &&& (p.0@.len() == 0 ==> p.1 is None)
            &&& (p.0@.len() > 0 ==> (p.1 matches Some(b) && b@ == spec_batch_body(
                crate::consumer_backend::views_of(p.0@))))
        }),
        r is Err ==> r matches Err(ClientError::QueueError(_)),
{
    let mut items: Vec<String> = Vec::new();
    loop
        invariant_except_break
            items@.len() < 10,
        ensures
            items@.len() <= 10,
        decreases 10 - items@.len(),
    {
        match queue_pop(q) {
            QueuePop::Item(s) => {
                items.push(s);
                if items.len() == 10 {
                    break;
                }
            },
            QueuePop::Empty => {
                break;
            },
            QueuePop::Closed => {
                if items.len() == 0 {
                    return Err(ClientError::QueueError(String::from_str(
                        "outbound queue closed",
                    )));
                }
                break;
            },
        }
    }
    if items.len() == 0 {
        Ok((items, None))
    } else {
        let body: String = build_batch_body(&items);
        Ok((items, Some(body)))
    }
}

} // verus!

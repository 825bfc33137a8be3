//! Delivery of one outbound text in pieces that the platform accepts.
//!
//! A text shorter than the limit goes out whole.  A longer one is cut into
//! chunks of at most `limit` bytes, each ending on a character boundary, and
//! the chunks go out one after the other.  A chunk that the platform rejects
//! is shortened by `SHRINK_BY` bytes, moved back to a character boundary, and
//! tried once more; a second rejection fails the delivery.
//!
//! The library decides what to send next; the caller sends it and reports
//! whether the platform took it.

use crate::tg_client::{escape_text, escaped};
use vstd::prelude::*;
use vstd::string::StrSliceExecFns;
use vstd::string::StringSliceAdditionalSpecFns;
use vstd::utf8::{encode_utf8, is_char_boundary, valid_utf8};

verus! {

/// How many bytes a rejected chunk loses before it is tried again.
pub const SHRINK_BY: usize = 2;

/// Where a delivery stands.
#[derive(Debug, Clone, Copy, PartialEq, Eq, Structural)]
pub enum Delivery {
    /// The whole text is to be sent as one message.
    Whole,
    /// The bytes from `start` up to `end` are to be sent; everything before
    /// `start` has been accepted.
    Chunk { start: usize, end: usize, retried: bool },
    /// Everything has been accepted.
    Delivered,
    /// The platform rejected a message for good, or no chunk within the limit
    /// can be cut.
    Failed,
}

/// The nearest character boundary of `bytes` at or below `from`, but not
/// below `floor`.
pub open spec fn boundary_down(bytes: Seq<u8>, from: int, floor: int) -> int
    decreases from - floor,
{
    if from <= floor || is_char_boundary(bytes, from) {
        from
    } else {
        boundary_down(bytes, from - 1, floor)
    }
}

/// The smaller of two numbers.
pub open spec fn least(a: int, b: int) -> int {
    if a <= b {
        a
    } else {
        b
    }
}

/// Where the chunk that starts at `start` ends: at most `limit` bytes on, at
/// most at the end of the text, and from there back to a character boundary.
pub open spec fn chunk_end(bytes: Seq<u8>, start: int, limit: int) -> int {
    boundary_down(bytes, least(start + limit, bytes.len() as int), start)
}

/// The delivery of what follows `start`: finished where nothing follows,
/// failed where not even one character fits the limit.
pub open spec fn chunk_from(bytes: Seq<u8>, start: int, limit: int) -> Delivery {
    if start >= bytes.len() {
        Delivery::Delivered
    } else {
        let end = chunk_end(bytes, start, limit);
        if end <= start {
            Delivery::Failed
        } else {
            Delivery::Chunk { start: start as usize, end: end as usize, retried: false }
        }
    }
}

/// Where the delivery of `text` begins.
pub open spec fn begun(text: Seq<char>, limit: int) -> Delivery {
    if text.len() < limit {
        Delivery::Whole
    } else {
        chunk_from(encode_utf8(text), 0, limit)
    }
}

/// Where a delivery stands after the platform accepted what was sent.
pub open spec fn after_accept(bytes: Seq<u8>, limit: int, d: Delivery) -> Delivery {
    match d {
        Delivery::Whole => Delivery::Delivered,
        Delivery::Chunk { start, end, retried } => chunk_from(bytes, end as int, limit),
        Delivery::Delivered => Delivery::Delivered,
        Delivery::Failed => Delivery::Failed,
    }
}

/// Where a delivery stands after the platform rejected what was sent.
pub open spec fn after_reject(bytes: Seq<u8>, d: Delivery) -> Delivery {
    match d {
        Delivery::Chunk { start, end, retried } => {
            if retried {
                Delivery::Failed
            } else {
                let shorter = if end - SHRINK_BY >= start {
                    end - SHRINK_BY
                } else {
                    start as int
                };
                let back = boundary_down(bytes, shorter, start as int);
                if back <= start {
                    Delivery::Failed
                } else {
                    Delivery::Chunk { start, end: back as usize, retried: true }
                }
            }
        },
        Delivery::Delivered => Delivery::Delivered,
        _ => Delivery::Failed,
    }
}

/// The bytes that a delivery asks to be sent now.
pub open spec fn pending_bytes(bytes: Seq<u8>, d: Delivery) -> Option<Seq<u8>> {
    match d {
        Delivery::Whole => Some(bytes),
        Delivery::Chunk { start, end, retried } => Some(bytes.subrange(start as int, end as int)),
        _ => None,
    }
}

impl Delivery {
    /// The state fits the text: a chunk is not empty, lies within the text,
    /// holds at most `limit` bytes, and begins and ends on a character
    /// boundary.
    pub open spec fn wf(self, bytes: Seq<u8>, limit: int) -> bool {
        match self {
            Delivery::Chunk { start, end, retried } => {
                &&& start < end <= bytes.len()
                &&& end - start <= limit
                &&& is_char_boundary(bytes, start as int)
                &&& is_char_boundary(bytes, end as int)
            },
            _ => true,
        }
    }

    /// Nothing more will be sent.
    pub open spec fn settled(self) -> bool {
        self is Delivered || self is Failed
    }

    /// A bound on the messages that are still to be sent.
    pub open spec fn steps_left(self, bytes: Seq<u8>) -> int {
        match self {
            Delivery::Whole => 1,
            Delivery::Chunk { start, end, retried } => 2 * (bytes.len() - start) + if retried {
                0int
            } else {
                1int
            },
            _ => 0,
        }
    }
}

/// `boundary_down` stays between `floor` and `from`, and ends on a
/// character boundary wherever `floor` is one.
pub proof fn lemma_boundary_down(bytes: Seq<u8>, from: int, floor: int)
    requires
        floor <= from,
    ensures
        floor <= boundary_down(bytes, from, floor) <= from,
        is_char_boundary(bytes, floor) ==> is_char_boundary(
            bytes,
            boundary_down(bytes, from, floor),
        ),
    decreases from - floor,
{
    if from <= floor || is_char_boundary(bytes, from) {
    } else {
        lemma_boundary_down(bytes, from - 1, floor);
    }
}

/// Chunking never splits a character: whatever `chunk_from` asks to be sent
/// from a character boundary on is a chunk that fits the text.
pub proof fn lemma_chunk_from_wf(bytes: Seq<u8>, start: int, limit: int)
    requires
        0 <= start <= usize::MAX,
        bytes.len() <= usize::MAX,
        is_char_boundary(bytes, start),
    ensures
        chunk_from(bytes, start, limit).wf(bytes, limit),
{
    if start < bytes.len() {
        let top = least(start + limit, bytes.len() as int);
        if start <= top {
            lemma_boundary_down(bytes, top, start);
        }
    }
}

/// Whatever the platform answers, the next state fits the text too, and the
/// bound on the messages still to be sent goes down.
pub proof fn lemma_delivery_step(bytes: Seq<u8>, limit: int, d: Delivery, accepted: bool)
    requires
        valid_utf8(bytes),
        bytes.len() <= usize::MAX,
        d.wf(bytes, limit),
        !d.settled(),
    ensures
        ({
            let next = if accepted {
                after_accept(bytes, limit, d)
            } else {
                after_reject(bytes, d)
            };
            &&& next.wf(bytes, limit)
            &&& 0 <= next.steps_left(bytes) < d.steps_left(bytes)
            &&& next matches Delivery::Chunk { start, .. } ==> d matches Delivery::Chunk {
                start: s0,
                end: e0,
                ..
            } && start == (if accepted {
                e0
            } else {
                s0
            })
        }),
{
    match d {
        Delivery::Chunk { start, end, retried } => {
            if accepted {
                lemma_chunk_from_wf(bytes, end as int, limit);
            } else if !retried {
                let shorter = if end - SHRINK_BY >= start {
                    end - SHRINK_BY
                } else {
                    start as int
                };
                lemma_boundary_down(bytes, shorter, start as int);
            }
        },
        _ => {},
    }
}

/// Where a delivery stands after one answer of the platform.
pub open spec fn after_answer(bytes: Seq<u8>, limit: int, d: Delivery, accepted: bool) -> Delivery {
    if accepted {
        after_accept(bytes, limit, d)
    } else {
        after_reject(bytes, d)
    }
}

/// Where a delivery that began at `first` stands after the platform's
/// answers `answers`, `true` for each message that it accepted.
pub open spec fn delivery_after(
    bytes: Seq<u8>,
    limit: int,
    first: Delivery,
    answers: Seq<bool>,
) -> Delivery
    decreases answers.len(),
{
    if answers.len() == 0 {
        first
    } else {
        after_answer(
            bytes,
            limit,
            delivery_after(bytes, limit, first, answers.drop_last()),
            answers.last(),
        )
    }
}

/// All that the platform accepted in the course of a delivery, in the order
/// in which it was sent.
pub open spec fn accepted_bytes(
    bytes: Seq<u8>,
    limit: int,
    first: Delivery,
    answers: Seq<bool>,
) -> Seq<u8>
    decreases answers.len(),
{
    if answers.len() == 0 {
        Seq::empty()
    } else {
        let before = accepted_bytes(bytes, limit, first, answers.drop_last());
        let sent = pending_bytes(bytes, delivery_after(bytes, limit, first, answers.drop_last()));
        if answers.last() && sent is Some {
            before + sent->0
        } else {
            before
        }
    }
}

/// However the platform answers, a delivery that begins in order stays in
/// order: every chunk begins and ends on a character boundary, and what the
/// platform has accepted so far is the text up to where the chunk at hand
/// begins, nothing missing and nothing twice.  Once the delivery is done,
/// that is the whole text; where it failed, it is a beginning of the text.
pub proof fn lemma_delivery_in_order(text: Seq<char>, limit: int, answers: Seq<bool>)
    requires
        encode_utf8(text).len() <= usize::MAX,
    ensures
        ({
            let bytes = encode_utf8(text);
            let first = begun(text, limit);
            let now = delivery_after(bytes, limit, first, answers);
            let taken = accepted_bytes(bytes, limit, first, answers);
            &&& now.wf(bytes, limit)
            &&& match now {
                Delivery::Whole => taken == Seq::<u8>::empty(),
                Delivery::Chunk { start, end, retried } => taken == bytes.subrange(0, start as int),
                Delivery::Delivered => taken == bytes,
                Delivery::Failed => taken.is_prefix_of(bytes),
            }
        }),
    decreases answers.len(),
{
    broadcast use vstd::utf8::encode_utf8_valid_utf8;

    let bytes = encode_utf8(text);
    let first = begun(text, limit);
    if answers.len() == 0 {
        lemma_chunk_from_wf(bytes, 0, limit);
        assert(bytes.subrange(0, 0) =~= Seq::<u8>::empty());
        assert(Seq::<u8>::empty().is_prefix_of(bytes));
        if first is Delivered {
            assert(bytes =~= Seq::<u8>::empty());
        }
    } else {
        let before = answers.drop_last();
        lemma_delivery_in_order(text, limit, before);
        let was = delivery_after(bytes, limit, first, before);
        let taken = accepted_bytes(bytes, limit, first, before);
        let now = delivery_after(bytes, limit, first, answers);
        if !was.settled() {
            lemma_delivery_step(bytes, limit, was, answers.last());
        }
        match was {
            Delivery::Whole => {
                assert(Seq::<u8>::empty() + bytes =~= bytes);
                assert(Seq::<u8>::empty().is_prefix_of(bytes));
            },
            Delivery::Chunk { start, end, retried } => {
                assert(bytes.subrange(0, start as int) + bytes.subrange(start as int, end as int)
                    =~= bytes.subrange(0, end as int));
                assert(bytes.subrange(0, bytes.len() as int) =~= bytes);
                assert(bytes.subrange(0, start as int).is_prefix_of(bytes));
                assert(bytes.subrange(0, end as int).is_prefix_of(bytes));
            },
            _ => {},
        }
    }
}

/// A delivery comes to an end: with every answer of the platform the bound
/// on the messages still to be sent goes down by at least one, so after as
/// many answers as the bound was at the beginning nothing is left to send.
pub proof fn lemma_delivery_settles(text: Seq<char>, limit: int, answers: Seq<bool>)
    requires
        encode_utf8(text).len() <= usize::MAX,
    ensures
        ({
            let bytes = encode_utf8(text);
            let first = begun(text, limit);
            let now = delivery_after(bytes, limit, first, answers);
            &&& now.steps_left(bytes) >= 0
            &&& now.settled() || now.steps_left(bytes) + answers.len() <= first.steps_left(bytes)
            &&& answers.len() >= first.steps_left(bytes) ==> now.settled()
        }),
    decreases answers.len(),
{
    broadcast use vstd::utf8::encode_utf8_valid_utf8;

    let bytes = encode_utf8(text);
    let first = begun(text, limit);
    lemma_delivery_in_order(text, limit, answers);
    if answers.len() > 0 {
        let before = answers.drop_last();
        lemma_delivery_settles(text, limit, before);
        lemma_delivery_in_order(text, limit, before);
        let was = delivery_after(bytes, limit, first, before);
        if !was.settled() {
            lemma_delivery_step(bytes, limit, was, answers.last());
        }
    }
}

/// The nearest character boundary of `text` at or below `from`, but not below
/// `floor`.
fn step_back(text: &str, from: usize, floor: usize) -> (at: usize)
    ensures
        at == boundary_down(text.spec_bytes(), from as int, floor as int),
{
    let mut at = from;
    while at > floor && !text.is_char_boundary(at)
        invariant
            boundary_down(text.spec_bytes(), at as int, floor as int) == boundary_down(
                text.spec_bytes(),
                from as int,
                floor as int,
            ),
        decreases at,
    {
        at -= 1;
    }
    at
}

/// The length of `text` in bytes.
fn byte_len(text: &str) -> (len: usize)
    ensures
        len == encode_utf8(text@).len(),
{
    text.as_bytes().len()
}

/// What is to be sent of `text` from byte `start` on.
fn next_chunk(text: &str, start: usize, limit: usize) -> (d: Delivery)
    ensures
        d == chunk_from(text.spec_bytes(), start as int, limit as int),
{
    let len = byte_len(text);
    if start >= len {
        return Delivery::Delivered;
    }
    let top = if limit > len - start {
        len
    } else {
        start + limit
    };
    let end = step_back(text, top, start);
    proof {
        if start <= top {
            lemma_boundary_down(text.spec_bytes(), top as int, start as int);
        }
    }
    if end <= start {
        Delivery::Failed
    } else {
        Delivery::Chunk { start, end, retried: false }
    }
}

/// Begins the delivery of `text`: whole if it has fewer than `limit`
/// characters, else by its first chunk.
pub fn begin(text: &str, limit: usize) -> (d: Delivery)
    ensures
        d == begun(text@, limit as int),
        d.wf(encode_utf8(text@), limit as int),
{
    broadcast use vstd::utf8::encode_utf8_valid_utf8;

    if text.unicode_len() < limit {
        Delivery::Whole
    } else {
        let len = byte_len(text);
        proof {
            lemma_chunk_from_wf(text.spec_bytes(), 0, limit as int);
        }
        next_chunk(text, 0, limit)
    }
}

/// Makes `text` ready to be sent: what goes out is its escaped form, and the
/// delivery of that begins.
pub fn prepare(text: &str, limit: usize) -> (out: (String, Delivery))
    ensures
        out.0@ == escaped(text@),
        out.1 == begun(escaped(text@), limit as int),
        out.1.wf(encode_utf8(escaped(text@)), limit as int),
{
    let safe = escape_text(text);
    let first = begin(safe.as_str(), limit);
    (safe, first)
}

/// The platform accepted what was sent: the delivery moves on to the next
/// chunk, or is done.
pub fn accepted(text: &str, limit: usize, d: Delivery) -> (next: Delivery)
    ensures
        next == after_accept(encode_utf8(text@), limit as int, d),
        d.wf(encode_utf8(text@), limit as int) ==> next.wf(encode_utf8(text@), limit as int),
{
    match d {
        Delivery::Whole => Delivery::Delivered,
        Delivery::Chunk { start, end, retried } => {
            let len = byte_len(text);
            proof {
                if d.wf(text.spec_bytes(), limit as int) {
                    lemma_chunk_from_wf(text.spec_bytes(), end as int, limit as int);
                }
            }
            next_chunk(text, end, limit)
        },
        Delivery::Delivered => Delivery::Delivered,
        Delivery::Failed => Delivery::Failed,
    }
}

/// The platform rejected what was sent: a chunk is shortened and tried once
/// more; anything else fails the delivery.
pub fn rejected(text: &str, limit: usize, d: Delivery) -> (next: Delivery)
    ensures
        next == after_reject(encode_utf8(text@), d),
        d.wf(encode_utf8(text@), limit as int) ==> next.wf(encode_utf8(text@), limit as int),
{
    match d {
        Delivery::Chunk { start, end, retried } => {
            if retried {
                return Delivery::Failed;
            }
            let shorter = if end >= SHRINK_BY && end - SHRINK_BY >= start {
                end - SHRINK_BY
            } else {
                start
            };
            let back = step_back(text, shorter, start);
            proof {
                lemma_boundary_down(text.spec_bytes(), shorter as int, start as int);
            }
            if back <= start {
                Delivery::Failed
            } else {
                Delivery::Chunk { start, end: back, retried: true }
            }
        },
        Delivery::Delivered => Delivery::Delivered,
        _ => Delivery::Failed,
    }
}

/// The part of `text` between two of its character boundaries; `None` where
/// one of them is no boundary or they are out of order.
pub fn slice_between(text: &str, start: usize, end: usize) -> (part: Option<&str>)
    ensures
        part is Some <==> start <= end && is_char_boundary(encode_utf8(text@), start as int)
            && is_char_boundary(encode_utf8(text@), end as int),
        part matches Some(p) ==> encode_utf8(p@) == encode_utf8(text@).subrange(
            start as int,
            end as int,
        ),
{
    broadcast use
        vstd::utf8::encode_utf8_valid_utf8,
        vstd::utf8::valid_utf8_split,
        vstd::utf8::is_char_boundary_start_end_of_seq,
        vstd::utf8::is_char_boundary_iff_not_is_continuation_byte,
    ;

    let ghost bytes = text.spec_bytes();
    if start > end || !text.is_char_boundary(end) {
        return None;
    }
    let (head, _) = text.split_at(end);
    proof {
        let h = head.spec_bytes();
        assert(h == bytes.subrange(0, end as int));
        assert(valid_utf8(bytes));
        assert(valid_utf8(h));
        if 0 < start < end {
            assert(h[start as int] == bytes[start as int]);
            assert(is_char_boundary(h, start as int) <==> !vstd::utf8::is_continuation_byte(
                h[start as int],
            ));
            assert(is_char_boundary(bytes, start as int) <==> !vstd::utf8::is_continuation_byte(
                bytes[start as int],
            ));
        } else if start == end {
            assert(is_char_boundary(h, h.len() as int));
        }
    }
    if !head.is_char_boundary(start) {
        return None;
    }
    let (_, part) = head.split_at(start);
    proof {
        assert(part.spec_bytes() =~= bytes.subrange(start as int, end as int));
    }
    Some(part)
}

/// What is to be sent now: the whole text, the chunk at hand, or nothing
/// once the delivery is settled.  A chunk that does not begin and end on a
/// character boundary of the text, as no chunk of a delivery of this text
/// does, yields nothing either.
pub fn pending<'a>(text: &'a str, d: Delivery) -> (part: Option<&'a str>)
    ensures
        part is Some <==> match d {
            Delivery::Whole => true,
            Delivery::Chunk { start, end, retried } => start <= end && is_char_boundary(
                encode_utf8(text@),
                start as int,
            ) && is_char_boundary(encode_utf8(text@), end as int),
            _ => false,
        },
        part matches Some(p) ==> Some(encode_utf8(p@)) == pending_bytes(encode_utf8(text@), d),
{
    match d {
        Delivery::Whole => Some(text),
        Delivery::Chunk { start, end, retried } => slice_between(text, start, end),
        _ => None,
    }
}

} // verus!

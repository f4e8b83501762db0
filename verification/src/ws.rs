//! Calls over a WebSocket: what to send, who waits, and what the reply means.

use crate::batch::{BatchBuilder, BatchResponseItem};
use crate::call::{
    holdable, id_after, prepare_batch, prepare_request, PreparedBatch, PreparedRequest,
};
use crate::error::Error;
use crate::handles::{range_within, Frame, NOT_DATA};
use crate::method_id::MethodIdBuf;
use crate::params::{optional_params, params_value, Serialized};
use crate::pending::{PendingBatchRequests, PendingRequests};
use crate::protocol::{batch_json, request_json, RequestView};
use crate::request_id::{is_id_range, RequestId, RequestIdManager};
use crate::text::lemma_decoded_text;
use core::time::Duration;
use std::ops::{Range, RangeInclusive};
use vstd::prelude::*;
use vstd::slice::slice_subrange;

verus! {

/// How long to wait for a reply, in seconds, when neither the call site nor the
/// client's own configuration says.
pub const DEFAULT_REQUEST_TIMEOUT_SECS: u64 = 30;

/// How many unconsumed pushed notifications a slow subscriber can fall behind
/// before older ones are dropped.
pub const NOTIFICATION_CHANNEL_CAPACITY: usize = 100;

/// Why a result that is not UTF-8 is refused.
pub const NOT_UTF8: &'static str = "response was not valid UTF-8";

/// The span of time that lasts `secs` whole seconds.
pub uninterp spec fn seconds(secs: u64) -> Duration;

/// `Duration::from_secs` gives the span of time named by [`seconds`].
pub assume_specification[ core::time::Duration::from_secs ](secs: u64) -> (d: core::time::Duration)
    ensures
        d == seconds(secs),
;

/// How long to wait for a reply: as long as the call says, else as long as the
/// client is configured to, else for the default.
pub open spec fn timeout_of(call: Option<Duration>, configured: Option<Duration>) -> Duration {
    match call {
        Some(timeout) => timeout,
        None => match configured {
            Some(timeout) => timeout,
            None => seconds(DEFAULT_REQUEST_TIMEOUT_SECS),
        },
    }
}

/// Decides how long to wait for a reply.
pub fn effective_timeout(call: Option<Duration>, configured: Option<Duration>) -> (timeout:
    Duration)
    ensures
        timeout == timeout_of(call, configured),
{
    match call {
        Some(timeout) => timeout,
        None => match configured {
            Some(timeout) => timeout,
            None => Duration::from_secs(DEFAULT_REQUEST_TIMEOUT_SECS),
        },
    }
}

/// Makes a request ready to be sent, and enters it as in flight with the ticket
/// of who will wait for its reply. With it comes the ticket that it takes the
/// place of: nobody will be told any more.
pub fn begin_request(
    method: MethodIdBuf,
    params: Option<Serialized>,
    waiter: u64,
    ids: &mut RequestIdManager,
    pending: &mut PendingRequests,
) -> (request: Result<(PreparedRequest, Option<u64>), Error>)
    requires
        holdable(params),
    ensures
        final(ids).next_id() == id_after(old(ids).next_id()),
        match optional_params(params, |j: Serialized| params_value(j)) {
            Ok(p) => {
                let id = RequestId(old(ids).next_id());
                &&& request matches Ok((r, replaced)) && r.id == id && r.payload@ == request_json(
                    (RequestView { id, method: method@, params: p }),
                ) && replaced == old(pending)@.get((id.0, id.0))
                &&& final(pending)@ == old(pending)@.insert((id.0, id.0), waiter)
            },
            Err(fault) => {
                &&& request matches Err(e) && fault.is_told_by(e)
                &&& final(pending)@ == old(pending)@
            },
        },
{
    match prepare_request(method, params, ids) {
        Ok(request) => {
            let replaced = pending.insert(request.id, waiter);
            Ok((request, replaced))
        },
        Err(e) => Err(e),
    }
}

/// Makes a batch ready to be sent, and enters it as in flight with the ticket
/// of who will wait for its reply. A batch of notifications alone has no reply,
/// and is not entered; nor is one with a message that was refused. With the
/// batch comes the ticket that it takes the place of: nobody will be told any
/// more.
pub fn begin_batch<F>(
    builder: BatchBuilder<F>,
    waiter: u64,
    ids: &mut RequestIdManager,
    pending: &mut PendingBatchRequests,
) -> (batch: Result<Option<(PreparedBatch<F>, Option<u64>)>, Error>)
    requires
        builder@.well_formed(),
        old(ids).next_id() + builder@.requests.len() <= u64::MAX,
    ensures
        match builder@.failed {
            Some(fault) => {
                &&& batch matches Err(e) && fault.is_told_by(e)
                &&& final(ids).next_id() == old(ids).next_id()
                &&& final(pending)@ == old(pending)@
            },
            None => {
                let first = old(ids).next_id();
                let last = (first + builder@.requests.len() - 1) as u64;
                &&& final(ids).next_id() == first + builder@.requests.len()
                &&& batch is Ok
                &&& batch->Ok_0 is None <==> builder@.requests.len() == 0
                    && builder@.notifications.len() == 0
                &&& batch->Ok_0 matches Some((b, replaced)) ==> {
                    &&& replaced == if builder@.requests.len() == 0 {
                        None
                    } else {
                        old(pending)@.get((first, last))
                    }
                    &&& b.range is None <==> builder@.requests.len() == 0
                    &&& b.range matches Some(range) ==> is_id_range(
                        range,
                        first as int,
                        first + builder@.requests.len() - 1,
                    )
                    &&& b.parsers@ == builder@.parsers
                    &&& b.payload@ == batch_json(builder@.messages(first))
                }
                &&& final(pending)@ == if builder@.requests.len() == 0 {
                    old(pending)@
                } else {
                    old(pending)@.insert((first, last), waiter)
                }
            },
        },
{
    match prepare_batch(builder, ids) {
        Ok(Some(batch)) => {
            let replaced = match &batch.range {
                Some(range) => pending.insert(*range.start(), *range.end(), waiter),
                None => None,
            };
            Ok(Some((batch, replaced)))
        },
        Ok(None) => Ok(None),
        Err(e) => Err(e),
    }
}

/// How a call that is in flight ends.
#[derive(Debug)]
pub enum CallEnd<R> {
    /// It could not be sent, for this reason.
    SendFailed(String),
    /// No reply came in time.
    TimedOut,
    /// Whoever would have handed on the reply is gone, for this reason.
    Abandoned(String),
    /// This is the reply.
    Replied(Result<R, Error>),
}

/// What the end of a call comes to, `timeout` being how long was waited.
pub open spec fn call_outcome<R>(end: CallEnd<R>, timeout: Duration) -> Result<R, Error> {
    match end {
        CallEnd::SendFailed(reason) => Err(Error::TransportError(reason)),
        CallEnd::TimedOut => Err(Error::RequestTimeout(timeout)),
        CallEnd::Abandoned(reason) => Err(Error::TransportError(reason)),
        CallEnd::Replied(reply) => reply,
    }
}

/// Whether a call that ends like this is still in flight, and has to be taken
/// out.
pub open spec fn gives_up<R>(end: CallEnd<R>) -> bool {
    end is SendFailed || end is TimedOut
}

/// Settles a request. If it could not be sent or was not answered in time,
/// nobody waits for its reply any more.
pub fn settle_request(
    id: RequestId,
    timeout: Duration,
    end: CallEnd<Range<usize>>,
    pending: &mut PendingRequests,
) -> (outcome: Result<Range<usize>, Error>)
    ensures
        outcome == call_outcome(end, timeout),
        final(pending)@ == if gives_up(end) {
            old(pending)@.remove((id.0, id.0))
        } else {
            old(pending)@
        },
{
    match end {
        CallEnd::SendFailed(reason) => {
            pending.remove(id);
            Err(Error::TransportError(reason))
        },
        CallEnd::TimedOut => {
            pending.remove(id);
            Err(Error::RequestTimeout(timeout))
        },
        CallEnd::Abandoned(reason) => Err(Error::TransportError(reason)),
        CallEnd::Replied(reply) => reply,
    }
}

/// Settles a batch. If it could not be sent or was not answered in time, nobody
/// waits for its reply any more.
pub fn settle_batch(
    range: &RangeInclusive<RequestId>,
    timeout: Duration,
    end: CallEnd<Vec<Result<Range<usize>, Error>>>,
    pending: &mut PendingBatchRequests,
) -> (outcome: Result<Vec<Result<Range<usize>, Error>>, Error>)
    requires
        !range@.exhausted,
    ensures
        outcome == call_outcome(end, timeout),
        final(pending)@ == if gives_up(end) {
            old(pending)@.remove((range@.start.0, range@.end.0))
        } else {
            old(pending)@
        },
{
    match end {
        CallEnd::SendFailed(reason) => {
            pending.remove(*range.start(), *range.end());
            Err(Error::TransportError(reason))
        },
        CallEnd::TimedOut => {
            pending.remove(*range.start(), *range.end());
            Err(Error::RequestTimeout(timeout))
        },
        CallEnd::Abandoned(reason) => Err(Error::TransportError(reason)),
        CallEnd::Replied(reply) => reply,
    }
}

/// Reads the result of a request out of the message that it arrived in.
pub fn finish_request<T, F: FnOnce(&[u8]) -> Result<T, serde_json::Error>>(
    frame: Frame<'_>,
    range: Range<usize>,
    parse: F,
) -> (response: Result<T, Error>)
    requires
        frame.message() matches Some(bytes) ==> range_within(range, bytes),
        forall|b: &[u8]| call_requires(parse, (b,)),
    ensures
        match frame.message() {
            Some(bytes) => exists|b: &[u8], r: Result<T, serde_json::Error>|
                {
                    &&& b@ == bytes.subrange(range.start as int, range.end as int)
                    &&& #[trigger] call_ensures(parse, (b,), r)
                    &&& response == match r {
                        Ok(value) => Ok::<T, Error>(value),
                        Err(e) => Err::<T, Error>(Error::SerdeError(e)),
                    }
                },
            None => response matches Err(e) && e.is_invalid_message(NOT_DATA@),
        },
{
    let bytes = match frame.payload() {
        Ok(bytes) => bytes,
        Err(e) => return Err(e),
    };
    match parse(slice_subrange(bytes, range.start, range.end)) {
        Ok(value) => Ok(value),
        Err(e) => Err(Error::SerdeError(e)),
    }
}

/// Whether `outcome` is what a caller gets for an item of a batch: what `parser`
/// makes of the text that stands in the message where the item says, or the
/// error that it is.
pub open spec fn reads_item<T, F: Fn(&str) -> BatchResponseItem<T>>(
    bytes: Seq<u8>,
    item: Result<Range<usize>, Error>,
    parser: F,
    outcome: BatchResponseItem<T>,
) -> bool {
    match item {
        Err(e) => outcome == Err::<T, Error>(e),
        Ok(range) => {
            let piece = bytes.subrange(range.start as int, range.end as int);
            if vstd::utf8::valid_utf8(piece) {
                exists|s: &str|
                    s@ == vstd::utf8::decode_utf8(piece) && #[trigger] call_ensures(
                        parser,
                        (s,),
                        outcome,
                    )
            } else {
                outcome matches Err(e) && e.is_invalid_message(NOT_UTF8@)
            }
        },
    }
}

/// Reads the result of one item of a batch out of the message that it arrived
/// in.
fn read_item<T, F: Fn(&str) -> BatchResponseItem<T>>(
    bytes: &[u8],
    item: Result<Range<usize>, Error>,
    parser: &F,
) -> (outcome: BatchResponseItem<T>)
    requires
        item matches Ok(range) ==> range_within(range, bytes@),
        forall|s: &str| call_requires(*parser, (s,)),
    ensures
        reads_item(bytes@, item, *parser, outcome),
{
    let range = match item {
        Ok(range) => range,
        Err(e) => return Err(e),
    };
    let piece = slice_subrange(bytes, range.start, range.end);
    match core::str::from_utf8(piece) {
        Ok(text) => {
            proof {
                lemma_decoded_text(piece@, text@);
            }
            parser(text)
        },
        Err(_) => Err(Error::InvalidMessage(NOT_UTF8)),
    }
}

/// Reads the results of a batch out of the message that they arrived in, each
/// with the parser of its own request.
pub fn finish_batch<T, F: Fn(&str) -> BatchResponseItem<T>>(
    frame: Frame<'_>,
    items: Vec<Result<Range<usize>, Error>>,
    parsers: Vec<F>,
) -> (outcomes: Result<Vec<BatchResponseItem<T>>, Error>)
    requires
        frame.message() matches Some(bytes) ==> forall|k: int|
            0 <= k < items@.len() ==> (#[trigger] items@[k] matches Ok(range) ==> range_within(
                range,
                bytes,
            )),
        forall|k: int, s: &str|
            0 <= k < parsers@.len() ==> #[trigger] call_requires(parsers@[k], (s,)),
    ensures
        match frame.message() {
            Some(bytes) => outcomes matches Ok(list) && {
                &&& list@.len() == if parsers@.len() < items@.len() {
                    parsers@.len()
                } else {
                    items@.len()
                }
                &&& forall|k: int|
                    0 <= k < list@.len() ==> reads_item(
                        bytes,
                        items@[k],
                        parsers@[k],
                        #[trigger] list@[k],
                    )
            },
            None => outcomes matches Err(e) && e.is_invalid_message(NOT_DATA@),
        },
{
    let bytes = match frame.payload() {
        Ok(bytes) => bytes,
        Err(e) => return Err(e),
    };
    let mut items = items;
    let ghost all = items@;
    items.truncate(parsers.len());
    let mut outcomes: Vec<BatchResponseItem<T>> = Vec::new();
    for item in it: items
        invariant
            it.seq() == items@,
            items@.len() <= parsers@.len(),
            items@.len() <= all.len(),
            forall|k: int| 0 <= k < items@.len() ==> #[trigger] items@[k] == all[k],
            forall|k: int|
                0 <= k < all.len() ==> (#[trigger] all[k] matches Ok(range) ==> range_within(
                    range,
                    bytes@,
                )),
            forall|k: int, s: &str|
                0 <= k < parsers@.len() ==> #[trigger] call_requires(parsers@[k], (s,)),
            outcomes@.len() == it.index(),
            forall|k: int|
                0 <= k < outcomes@.len() ==> reads_item(
                    bytes@,
                    all[k],
                    parsers@[k],
                    #[trigger] outcomes@[k],
                ),
    {
        let ghost k = it.index() as int;
        assert(items@[k] == all[k]);
        let i = outcomes.len();
        let outcome = read_item(bytes, item, &parsers[i]);
        outcomes.push(outcome);
    }
    Ok(outcomes)
}

} // verus!

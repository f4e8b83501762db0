//! Calls made ready to be sent, over whatever transport.

use crate::batch::{BatchBuilder, BatchResponseItem};
use crate::error::Error;
use crate::method_id::MethodIdBuf;
use crate::params::{
    buffer_limit, law_fresh_buffer_changes_nothing, optional_params, params_value, written,
    ParamsBuf, Serialized,
};
use crate::protocol::{
    batch_json, batch_to_json, notification_json, request_json, JsonRpcNotification,
    JsonRpcRequest, NotificationView, RequestView,
};
use crate::request_id::{is_id_range, RequestId, RequestIdManager};
use std::ops::RangeInclusive;
use vstd::prelude::*;

verus! {

/// A request ready to be sent.
#[derive(Debug)]
pub struct PreparedRequest {
    /// The id that the reply will have.
    pub id: RequestId,
    /// The JSON text to send.
    pub payload: String,
}

/// A batch ready to be sent.
#[derive(Debug)]
pub struct PreparedBatch<F> {
    /// The ids that the reply will have; `None` if there will be no reply.
    pub range: Option<RangeInclusive<RequestId>>,
    /// The parser of each request.
    pub parsers: Vec<F>,
    /// The JSON text to send.
    pub payload: String,
}

/// Whether what serializing a value wrote can be held in memory a second time.
pub open spec fn holdable(params: Option<Serialized>) -> bool {
    params matches Some(json) ==> written(json).len() <= buffer_limit()
}

/// The id that follows `id`: the counter wraps around.
pub open spec fn id_after(id: u64) -> u64 {
    if id == u64::MAX {
        0
    } else {
        (id + 1) as u64
    }
}

/// Makes a request ready to be sent. Its id is taken even if the params turn
/// out not to be fit to be sent.
pub fn prepare_request(
    method: MethodIdBuf,
    params: Option<Serialized>,
    ids: &mut RequestIdManager,
) -> (request: Result<PreparedRequest, Error>)
    requires
        holdable(params),
    ensures
        final(ids).next_id() == id_after(old(ids).next_id()),
        match optional_params(params, |j: Serialized| params_value(j)) {
            Ok(p) => {
                let id = RequestId(old(ids).next_id());
                request matches Ok(r) && r.id == id && r.payload@ == request_json(
                    (RequestView { id, method: method@, params: p }),
                )
            },
            Err(fault) => request matches Err(e) && fault.is_told_by(e),
        },
{
    let id = ids.reserve_id();
    let mut buf = ParamsBuf::new();
    proof {
        law_fresh_buffer_changes_nothing(params);
    }
    let request = match JsonRpcRequest::try_new(id, method.as_ref(), params, &mut buf) {
        Ok(request) => request,
        Err(e) => return Err(e),
    };
    match request.to_json() {
        Ok(payload) => Ok(PreparedRequest { id, payload }),
        Err(e) => Err(Error::SerdeError(e)),
    }
}

/// Makes a notification ready to be sent.
pub fn prepare_notification(method: MethodIdBuf, params: Option<Serialized>) -> (payload: Result<
    String,
    Error,
>)
    requires
        holdable(params),
    ensures
        match optional_params(params, |j: Serialized| params_value(j)) {
            Ok(p) => payload matches Ok(text) && text@ == notification_json(
                (NotificationView { method: method@, params: p }),
            ),
            Err(fault) => payload matches Err(e) && fault.is_told_by(e),
        },
{
    let mut buf = ParamsBuf::new();
    proof {
        law_fresh_buffer_changes_nothing(params);
    }
    let notification = match JsonRpcNotification::try_new(method.as_ref(), params, &mut buf) {
        Ok(notification) => notification,
        Err(e) => return Err(e),
    };
    match notification.to_json() {
        Ok(payload) => Ok(payload),
        Err(e) => Err(Error::SerdeError(e)),
    }
}

/// Makes everything queued on `builder` ready to be sent as a single batch.
/// `Ok(None)` only when it had nothing queued at all. A batch with a message
/// that was refused is not sent, and takes no ids.
pub fn prepare_batch<F>(builder: BatchBuilder<F>, ids: &mut RequestIdManager) -> (batch: Result<
    Option<PreparedBatch<F>>,
    Error,
>)
    requires
        builder@.well_formed(),
        old(ids).next_id() + builder@.requests.len() <= u64::MAX,
    ensures
        match builder@.failed {
            Some(fault) => {
                &&& batch matches Err(e) && fault.is_told_by(e)
                &&& final(ids).next_id() == old(ids).next_id()
            },
            None => {
                &&& final(ids).next_id() == old(ids).next_id() + builder@.requests.len()
                &&& batch is Ok
                &&& batch->Ok_0 is None <==> builder@.requests.len() == 0
                    && builder@.notifications.len() == 0
                &&& batch->Ok_0 matches Some(b) ==> {
                    &&& b.range is None <==> builder@.requests.len() == 0
                    &&& b.range matches Some(range) ==> is_id_range(
                        range,
                        old(ids).next_id() as int,
                        old(ids).next_id() + builder@.requests.len() - 1,
                    )
                    &&& b.parsers@ == builder@.parsers
                    &&& b.payload@ == batch_json(builder@.messages(old(ids).next_id()))
                }
            },
        },
{
    match builder.build(ids) {
        Ok(Some(batch)) => match batch_to_json(&batch.items) {
            Ok(payload) => Ok(
                Some(
                    PreparedBatch {
                        range: batch.request_id_range,
                        parsers: batch.parsers,
                        payload,
                    },
                ),
            ),
            Err(e) => Err(Error::SerdeError(e)),
        },
        Ok(None) => Ok(None),
        Err(e) => Err(e),
    }
}

/// What a batch comes to for which no reply is due: nothing where nothing was
/// queued, and no items where only notifications were. `None` where a reply is
/// due.
pub fn without_reply<T, F>(batch: &Option<PreparedBatch<F>>) -> (outcome: Option<
    Option<Vec<BatchResponseItem<T>>>,
>)
    ensures
        match batch {
            None => outcome matches Some(None),
            Some(b) => if b.range is None {
                outcome matches Some(Some(items)) && items@.len() == 0
            } else {
                outcome is None
            },
        },
{
    match batch {
        None => Some(None),
        Some(b) => match b.range {
            None => Some(Some(Vec::new())),
            Some(_) => None,
        },
    }
}

} // verus!

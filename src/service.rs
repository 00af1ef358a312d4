//! The decisions of the portfolio upload service; the HTTP layer around it performs
//! the reads and writes.
use vstd::prelude::*;
use crate::digest::{csv_to_lot, csv_spec};
use crate::ingest::{
    ContentLengthFailure,
    ContentLengthHeaderError,
    PortfolioLimits,
    content_length,
    content_length_spec,
};
use crate::lot::LotModel;
use crate::summary::{Id, Portfolio, lots_view};

verus! {

/// The status of a reply.
#[derive(Clone, Copy, Debug, PartialEq, Eq, Structural)]
pub enum Status {
    Success,
    BadRequest,
    NotFound,
    LengthRequired,
    PayloadTooLarge,
    InternalServerError,
}

/// What an upload comes to: the lots of the portfolio to store, or the status to reply
/// with. A missing Content-Length needs a length; a malformed one is a bad request; a
/// length above the limit is too large; a text that does not read as lots is a bad
/// request; more lots than the limit is too large.
pub open spec fn upload_spec(
    content_length_header: Option<Seq<u8>>,
    body: Seq<u8>,
    limits: PortfolioLimits,
) -> Result<Seq<LotModel>, Status> {
    match content_length_spec(content_length_header) {
        Err(ContentLengthFailure::Missing) => Err(Status::LengthRequired),
        Err(_) => Err(Status::BadRequest),
        Ok(n) => if n > limits.max_file_size {
            Err(Status::PayloadTooLarge)
        } else {
            match csv_spec(body) {
                Err(_) => Err(Status::BadRequest),
                Ok(lots) => if lots.len() > limits.max_num_lots {
                    Err(Status::PayloadTooLarge)
                } else {
                    Ok(lots)
                },
            }
        },
    }
}

/// Decides what to do with an upload of portfolio `id`: the portfolio to store, or the
/// status to reply with.
pub fn accept_upload(
    id: Id,
    content_length_header: Option<&[u8]>,
    body: &[u8],
    limits: &PortfolioLimits,
) -> (r: Result<Portfolio, Status>)
    ensures
        match upload_spec(
            match content_length_header {
                Some(h) => Some(h@),
                None => None,
            },
            body@,
            *limits,
        ) {
            Ok(lots) => r matches Ok(p) && p.id == id && lots_view(p.lots@) == lots,
            Err(s) => r == Err::<Portfolio, Status>(s),
        },
{
    let length = match content_length(content_length_header) {
        Ok(n) => n,
        Err(ContentLengthHeaderError::Missing) => return Err(Status::LengthRequired),
        Err(ContentLengthHeaderError::Malformed(_)) => return Err(Status::BadRequest),
    };
    if length > limits.max_file_size {
        return Err(Status::PayloadTooLarge);
    }
    let lots = match csv_to_lot(body) {
        Ok(lots) => lots,
        Err(_) => return Err(Status::BadRequest),
    };
    if lots.len() > limits.max_num_lots {
        return Err(Status::PayloadTooLarge);
    }
    Ok(Portfolio { id, lots })
}

/// The status of a stored portfolio upload: success where the write succeeded.
pub fn put_status(stored: bool) -> (r: Status)
    ensures
        r == (if stored {
            Status::Success
        } else {
            Status::InternalServerError
        }),
{
    if stored {
        Status::Success
    } else {
        Status::InternalServerError
    }
}

} // verus!

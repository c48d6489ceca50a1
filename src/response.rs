//! Validation of received frames.
use vstd::prelude::*;

use crate::command::frame;
use crate::hardware::{any_flag, DriverErrors, ID};
use crate::{checksum, crc, lemma_checksum_detects_change};
use vstd::slice::slice_to_vec;

verus! {

/// A validated reply.
#[derive(Debug)]
pub struct Response {
    pub id: ID,
    pub errors: Option<DriverErrors>,
    pub payload: Vec<u8>,
}

/// Why a received frame was rejected.
#[derive(Debug, Clone, Copy, PartialEq, Eq, Structural)]
pub enum ResponseError {
    Malformed,
    CrcInvalid,
    IdInvalid,
}

/// The first defect of a received frame, checked in this order: the id,
/// length and error bytes are present; the id byte is an identifier; the
/// checksum byte at offset `3 + length` is present and follows the error byte;
/// it equals the checksum of every byte from the id up to the last.
/// `None` when the frame is accepted.
pub open spec fn frame_error(b: Seq<u8>) -> Option<ResponseError> {
    if b.len() < 5 {
        Some(ResponseError::Malformed)
    } else if ID::spec_try_from(b[2]) is Err {
        Some(ResponseError::IdInvalid)
    } else if b[3] < 2 || 3 + b[3] >= b.len() {
        Some(ResponseError::Malformed)
    } else if b[3 + b[3]] != checksum(b.subrange(2, b.len() - 1)) {
        Some(ResponseError::CrcInvalid)
    } else {
        None
    }
}

impl Response {
    /// The reply read out of an accepted frame `b`: its id, the flags of its
    /// error byte and the bytes between the error byte and the last byte.
    pub open spec fn read_from(self, b: Seq<u8>) -> bool {
        &&& ID::spec_try_from(b[2]) == Ok::<ID, crate::hardware::IDError>(self.id)
        &&& (self.errors is Some <==> any_flag(b[4]))
        &&& (self.errors matches Some(e) ==> e.spec_bits() == b[4])
        &&& self.payload@ == b.subrange(5, b.len() - 1)
    }

    /// Validates a received frame and reads the reply out of it.
    pub fn try_from(value: &[u8]) -> (r: Result<Response, ResponseError>)
        ensures
            match r {
                Ok(resp) => frame_error(value@) is None && resp.read_from(value@),
                Err(e) => frame_error(value@) == Some(e),
            },
    {
        if value.len() < 5 {
            return Err(ResponseError::Malformed);
        }
        let id_byte = value[2];
        let length = value[3];
        let error = value[4];
        let id = match ID::try_from(id_byte) {
            Ok(id) => id,
            Err(_) => return Err(ResponseError::IdInvalid),
        };
        let crc_at = 3 + length as usize;
        if length < 2 || crc_at >= value.len() {
            return Err(ResponseError::Malformed);
        }
        let rx_crc = value[crc_at];
        let end = value.len() - 1;
        let sum = crc(&value[2..end]);
        if rx_crc != sum {
            return Err(ResponseError::CrcInvalid);
        }
        let errors = DriverErrors::from_byte(error);
        let payload = slice_to_vec(&value[5..end]);
        Ok(Response { id, errors, payload })
    }
}

/// Validating a frame that the packet builder made, for a valid identifier
/// and any payload whose length fits the length byte, always succeeds; the
/// reply read from it carries that identifier, and the payload after its
/// first byte.
pub proof fn lemma_built_frame_validates(id: ID, data: Seq<u8>)
    requires
        id.is_valid(),
        1 <= data.len() <= 253,
    ensures
        frame_error(frame(id, data)) is None,
        ID::spec_try_from(frame(id, data)[2]) == Ok::<ID, crate::hardware::IDError>(id),
        frame(id, data)[4] == data[0],
        frame(id, data).subrange(5, frame(id, data).len() - 1) == data.subrange(1, data.len() as int),
{
    let b = frame(id, data);
    let body = seq![id.spec_value(), (data.len() + 1) as u8] + data;
    assert(b.subrange(2, b.len() - 1) =~= body);
    assert(b.subrange(5, b.len() - 1) =~= data.subrange(1, data.len() as int));
    assert(b[3] == data.len() + 1);
}

/// Changing one byte of a built frame, at the id (to another identifier) or
/// anywhere in the instruction payload, makes validation fail on the checksum.
pub proof fn lemma_corrupted_frame_fails_checksum(id: ID, data: Seq<u8>, i: int, v: u8)
    requires
        id.is_valid(),
        1 <= data.len() <= 253,
        i == 2 || 4 <= i < frame(id, data).len() - 1,
        v != frame(id, data)[i],
        i == 2 ==> ID::spec_try_from(v) is Ok,
    ensures
        frame_error(frame(id, data).update(i, v)) == Some(ResponseError::CrcInvalid),
{
    let b = frame(id, data);
    let c = b.update(i, v);
    let body = seq![id.spec_value(), (data.len() + 1) as u8] + data;
    assert(b.subrange(2, b.len() - 1) =~= body);
    assert(c.subrange(2, c.len() - 1) =~= body.update(i - 2, v));
    lemma_checksum_detects_change(body, i - 2, v);
    assert(c[3 + c[3]] == b[b.len() - 1]);
}

/// A buffer cut short before the error byte is rejected as malformed.
pub proof fn lemma_truncated_frame_malformed(b: Seq<u8>, n: int)
    requires
        0 <= n < 5,
        n <= b.len(),
    ensures
        frame_error(b.subrange(0, n)) == Some(ResponseError::Malformed),
{
}

} // verus!

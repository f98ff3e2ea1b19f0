//! The payment request built from an assembled pipe, and the service's
//! answers.
use vstd::prelude::*;
use crate::buffers::{MsgPipe, pipe_rows};
use crate::encrypt::{customer_id, pipe_decodable, pipe_is_decodable, pipe_message, process_encrypt_msg};

verus! {

/// What the terminal sends to the payment service for one message.
pub struct MetalPaymentRequest {
    pub customer_id: String,
    pub device_id: &'static str,
    pub pipe: String,
    pub encrypted_price: Vec<u8>,
    pub time: i64,
}

/// The payment service's answer to a payment request.
pub struct MetalPaymentResponse {
    pub first_name: String,
    pub last_name: String,
    pub amount: i64,
}

/// The payment service's answer to a health check.
#[derive(Debug, Clone, Copy, PartialEq, Eq)]
pub struct Healthly {
    pub healthly: bool,
}

/// The payment request for an assembled pipe received `pipe.1`
/// milliseconds after its first chunk: the customer id and message it
/// carries, this terminal's id and the encrypted price. `None` when the pipe
/// cannot be decoded (its id chunks are too short).
pub fn payment_request(pipe: &(MsgPipe, i64), device_id: &'static str, encrypted_price: Vec<u8>) -> (r: Option<MetalPaymentRequest>)
    ensures
        r is Some <==> pipe_decodable(pipe_rows(pipe.0)),
        r matches Some(req) ==> {
            &&& req.customer_id@ == customer_id(pipe_rows(pipe.0))
            &&& req.pipe@ == pipe_message(pipe_rows(pipe.0))
            &&& req.device_id == device_id
            &&& req.encrypted_price@ == encrypted_price@
            &&& req.time == pipe.1
        },
{
    if !pipe_is_decodable(&pipe.0) {
        return None;
    }
    let (id, msg) = process_encrypt_msg(&pipe.0);
    Some(MetalPaymentRequest {
        customer_id: id,
        device_id,
        pipe: msg,
        encrypted_price,
        time: pipe.1,
    })
}

} // verus!

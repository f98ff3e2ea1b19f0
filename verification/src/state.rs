//! The per-peer connection record.
use vstd::prelude::*;
use crate::buffers::{MsgPipe, PricePipe, pipe_new, pipe_rows, pipe_take};

verus! {

#[verifier::external_type_specification]
#[verifier::external_body]
pub struct ExInstant(std::time::Instant);

/// `std::time::Instant::now`: the current time. Nothing is stated of the
/// value, which depends on the clock.
#[verifier::external_body]
fn instant_now() -> (r: std::time::Instant)
{
    std::time::Instant::now()
}

/// One BLE peer: its connection handle, the chunks it has sent so far, the
/// price chunks kept for it, how many of them it has read, and when the
/// record was made.
pub struct Conn {
    pub id: u16,
    pub data: MsgPipe,
    pub price: PricePipe,
    pub price_read: usize,
    pub time: std::time::Instant,
}

impl Conn {
    /// A record for peer `id` made at `time`, with no chunk received yet,
    /// holding `price`.
    pub fn new_at(id: u16, price: PricePipe, time: std::time::Instant) -> (r: Self)
        ensures
            r.id == id,
            pipe_rows(r.data) == Seq::<Seq<u8>>::empty(),
            r.price == price,
            r.price_read == 0,
            r.time == time,
    {
        Conn { id, data: pipe_new(), price, price_read: 0, time }
    }

    /// A record for peer `id` made now (the clock is read for `time`), with no
    /// chunk received yet, holding `price`.
    pub fn new(id: u16, price: PricePipe) -> (r: Self)
        ensures
            r.id == id,
            pipe_rows(r.data) == Seq::<Seq<u8>>::empty(),
            r.price == price,
            r.price_read == 0,
    {
        Conn::new_at(id, price, instant_now())
    }

    /// Hands over the chunks received so far and leaves none behind.
    pub fn take_data(&mut self) -> (r: MsgPipe)
        ensures
            pipe_rows(r) == pipe_rows(old(self).data),
            pipe_rows(final(self).data) == Seq::<Seq<u8>>::empty(),
            final(self).id == old(self).id,
            final(self).price == old(self).price,
            final(self).price_read == old(self).price_read,
            final(self).time == old(self).time,
    {
        pipe_take(&mut self.data)
    }
}

} // verus!

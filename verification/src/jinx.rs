//! Assembly of the chunked messages that peers write to the terminal.
//!
//! A peer writes a message as a series of chunks of at most 16 bytes: the
//! first one carries the text `HEAD`, the last one the text `TAIL`. The
//! chunks are collected per connection; a `TAIL` hands the collected pipe
//! over for payment processing.
use vstd::prelude::*;
use crate::buffers::{MsgPipe, pipe_clear, pipe_len, pipe_push, pipe_rows};
use crate::encrypt::latin1;
use crate::state::Conn;

verus! {

/// What a written chunk announces.
#[derive(Debug, Clone, Copy, PartialEq, Eq, Structural)]
pub enum ChunkKind {
    /// The chunk carries `HEAD`: a new message starts.
    Head,
    /// The chunk carries `TAIL` (and not `HEAD`): the message ends.
    Tail,
    /// Any other chunk: the message goes on.
    Body,
}

/// `text` occurs in `data` read as Latin-1 characters.
pub open spec fn contains_text(data: Seq<u8>, text: Seq<char>) -> bool {
    exists|i: int| 0 <= i && i + text.len() <= data.len()
        && #[trigger] latin1(data.subrange(i, i + text.len())) == text
}

/// The kind of a chunk, as decided by the texts it contains.
pub open spec fn kind_of(data: Seq<u8>) -> ChunkKind {
    if contains_text(data, seq!['H', 'E', 'A', 'D']) {
        ChunkKind::Head
    } else if contains_text(data, seq!['T', 'A', 'I', 'L']) {
        ChunkKind::Tail
    } else {
        ChunkKind::Body
    }
}

/// Whether the four bytes `tag` occur in `data`.
fn contains_tag(data: &[u8], tag: [u8; 4]) -> (r: bool)
    ensures
        r == contains_text(data@, latin1(tag@)),
{
    proof {
        assert(latin1(tag@).len() == 4);
    }
    if data.len() < 4 {
        return false;
    }
    let last = data.len() - 4;
    let mut i: usize = 0;
    while i <= last
        invariant
            last + 4 == data@.len(),
            i <= last + 1,
            forall|k: int| 0 <= k < i ==> latin1(#[trigger] data@.subrange(k, k + 4)) != latin1(tag@),
        decreases last + 1 - i,
    {
        if data[i] == tag[0] && data[i + 1] == tag[1] && data[i + 2] == tag[2] && data[i + 3] == tag[3] {
            assert(latin1(data@.subrange(i as int, i + 4)) == latin1(tag@));
            return true;
        }
        assert(latin1(data@.subrange(i as int, i + 4)) != latin1(tag@)) by {
            let w = data@.subrange(i as int, i + 4);
            if latin1(w) == latin1(tag@) {
                assert(latin1(w)[0] == latin1(tag@)[0]);
                assert(latin1(w)[1] == latin1(tag@)[1]);
                assert(latin1(w)[2] == latin1(tag@)[2]);
                assert(latin1(w)[3] == latin1(tag@)[3]);
            }
        }
        i = i + 1;
    }
    assert forall|k: int| 0 <= k && k + latin1(tag@).len() <= data@.len()
        implies latin1(#[trigger] data@.subrange(k, k + latin1(tag@).len())) != latin1(tag@) by {
        assert(0 <= k < i);
    }
    false
}

/// Tells whether a written chunk starts, ends or continues a message.
pub fn chunk_kind(data: &[u8]) -> (r: ChunkKind)
    ensures
        r == kind_of(data@),
{
    let head: [u8; 4] = [72, 69, 65, 68];
    let tail: [u8; 4] = [84, 65, 73, 76];
    assert(latin1(head@) == seq!['H', 'E', 'A', 'D']);
    assert(latin1(tail@) == seq!['T', 'A', 'I', 'L']);
    if contains_tag(data, head) {
        ChunkKind::Head
    } else if contains_tag(data, tail) {
        ChunkKind::Tail
    } else {
        ChunkKind::Body
    }
}

/// The chunks a connection `id` holds after a chunk of `kind` with bytes
/// `data` was written by peer `handle`: a `HEAD` from the peer itself starts
/// over with that chunk, a body chunk from it is appended, and a `TAIL` from
/// any peer empties the buffer (what it held is handed over).
pub open spec fn rows_after(rows: Seq<Seq<u8>>, id: u16, kind: ChunkKind, handle: u16, data: Seq<u8>) -> Seq<Seq<u8>> {
    match kind {
        ChunkKind::Head => if id == handle { seq![data] } else { rows },
        ChunkKind::Body => if id == handle { rows.push(data) } else { rows },
        ChunkKind::Tail => Seq::<Seq<u8>>::empty(),
    }
}

/// What a connection hands over for the same chunk: on a `TAIL` the chunks
/// held (with the tail appended when it comes from the peer itself), nothing
/// otherwise.
pub open spec fn rows_sent(rows: Seq<Seq<u8>>, id: u16, kind: ChunkKind, handle: u16, data: Seq<u8>) -> Option<Seq<Seq<u8>>> {
    match kind {
        ChunkKind::Tail => Some(if id == handle { rows.push(data) } else { rows }),
        _ => None,
    }
}

/// The chunks held after a run of body chunks from the connection's own peer.
pub open spec fn rows_after_bodies(rows: Seq<Seq<u8>>, id: u16, bodies: Seq<Seq<u8>>) -> Seq<Seq<u8>>
    decreases bodies.len(),
{
    if bodies.len() == 0 {
        rows
    } else {
        rows_after(rows_after_bodies(rows, id, bodies.drop_last()), id, ChunkKind::Body, id, bodies.last())
    }
}

impl Conn {
    /// Applies a chunk written by peer `handle` to this connection. Returns
    /// the pipe to process, with the milliseconds since the message began
    /// (cast to `i64`), when the chunk is a `TAIL`.
    pub fn receive_chunk(&mut self, kind: ChunkKind, handle: u16, data: &[u8], elapsed_ms: u128) -> (r: Option<(MsgPipe, i64)>)
        requires
            old(self).id == handle ==> data@.len() <= 16,
            old(self).id == handle && kind != ChunkKind::Head ==> pipe_rows(old(self).data).len() < 20,
        ensures
            pipe_rows(final(self).data) == rows_after(pipe_rows(old(self).data), old(self).id, kind, handle, data@),
            r is Some <==> rows_sent(pipe_rows(old(self).data), old(self).id, kind, handle, data@) is Some,
            r matches Some(p) ==> pipe_rows(p.0) == rows_sent(pipe_rows(old(self).data), old(self).id, kind, handle, data@)->0
                && p.1 == elapsed_ms as i64,
            final(self).id == old(self).id,
            final(self).price == old(self).price,
            final(self).price_read == old(self).price_read,
            final(self).time == old(self).time,
    {
        match kind {
            ChunkKind::Head => {
                if self.id == handle {
                    pipe_clear(&mut self.data);
                    pipe_push(&mut self.data, data);
                }
                None
            },
            ChunkKind::Body => {
                if self.id == handle {
                    pipe_push(&mut self.data, data);
                }
                None
            },
            ChunkKind::Tail => {
                if self.id == handle {
                    pipe_push(&mut self.data, data);
                }
                let send = self.take_data();
                pipe_clear(&mut self.data);
                Some((send, elapsed_ms as i64))
            },
        }
    }
}

/// Why a chunk could not be taken.
#[derive(Debug, Clone, Copy, PartialEq, Eq)]
pub enum ChunkError {
    /// The chunk is longer than 16 bytes.
    TooLong,
    /// The connection already holds 20 chunks.
    PipeFull,
}

impl Conn {
    /// `receive_chunk`, when the chunk can be taken: an error, with nothing
    /// changed, when the chunk comes from this connection's peer and is
    /// longer than 16 bytes, or continues a message that already fills the
    /// 20 chunks.
    pub fn accept_chunk(&mut self, kind: ChunkKind, handle: u16, data: &[u8], elapsed_ms: u128) -> (r: Result<Option<(MsgPipe, i64)>, ChunkError>)
        ensures
            r matches Err(e) ==> *final(self) == *old(self) && old(self).id == handle && (
                (e == ChunkError::TooLong && data@.len() > 16)
                || (e == ChunkError::PipeFull && data@.len() <= 16 && kind != ChunkKind::Head
                    && pipe_rows(old(self).data).len() >= 20)),
            r is Err <==> old(self).id == handle && (data@.len() > 16
                || (kind != ChunkKind::Head && pipe_rows(old(self).data).len() >= 20)),
            r is Ok ==> pipe_rows(final(self).data) == rows_after(pipe_rows(old(self).data), old(self).id, kind, handle, data@),
            r matches Ok(out) ==> (out is Some <==> rows_sent(pipe_rows(old(self).data), old(self).id, kind, handle, data@) is Some),
            r matches Ok(Some(p)) ==> pipe_rows(p.0) == rows_sent(pipe_rows(old(self).data), old(self).id, kind, handle, data@)->0
                && p.1 == elapsed_ms as i64,
            final(self).id == old(self).id,
            final(self).price == old(self).price,
            final(self).price_read == old(self).price_read,
            final(self).time == old(self).time,
    {
        if self.id == handle {
            if data.len() > 16 {
                return Err(ChunkError::TooLong);
            }
            if kind != ChunkKind::Head && pipe_len(&self.data) >= 20 {
                return Err(ChunkError::PipeFull);
            }
        }
        Ok(self.receive_chunk(kind, handle, data, elapsed_ms))
    }
}

/// Whether a connection with handle `conn` is among `my_conns`, and the
/// index of the first one (0 when there is none).
pub fn contains_conn(my_conns: &[Conn], conn: &u16) -> (r: (bool, usize))
    ensures
        r.0 <==> exists|i: int| 0 <= i < my_conns@.len() && #[trigger] my_conns@[i].id == *conn,
        r.0 ==> r.1 < my_conns@.len() && my_conns@[r.1 as int].id == *conn
            && forall|j: int| 0 <= j < r.1 ==> #[trigger] my_conns@[j].id != *conn,
        !r.0 ==> r.1 == 0,
{
    let mut index: usize = 0;
    while index < my_conns.len()
        invariant
            index <= my_conns@.len(),
            forall|j: int| 0 <= j < index ==> #[trigger] my_conns@[j].id != *conn,
        decreases my_conns@.len() - index,
    {
        if my_conns[index].id == *conn {
            return (true, index);
        }
        index = index + 1;
    }
    (false, 0)
}

/// A message written by a connection's own peer as a `HEAD` chunk, a run of
/// body chunks and a `TAIL` chunk is handed over as exactly those chunks, in
/// the order they were written, whatever the connection held before.
pub proof fn lemma_message_assembly(rows: Seq<Seq<u8>>, id: u16, head: Seq<u8>, bodies: Seq<Seq<u8>>, tail: Seq<u8>)
    ensures
        rows_sent(
            rows_after_bodies(rows_after(rows, id, ChunkKind::Head, id, head), id, bodies),
            id, ChunkKind::Tail, id, tail,
        ) == Some(seq![head] + bodies + seq![tail]),
    decreases bodies.len(),
{
    lemma_bodies_append(seq![head], id, bodies);
}

/// Body chunks from the connection's own peer are appended in order.
pub proof fn lemma_bodies_append(rows: Seq<Seq<u8>>, id: u16, bodies: Seq<Seq<u8>>)
    ensures
        rows_after_bodies(rows, id, bodies) == rows + bodies,
    decreases bodies.len(),
{
    if bodies.len() > 0 {
        lemma_bodies_append(rows, id, bodies.drop_last());
        assert(rows + bodies == (rows + bodies.drop_last()).push(bodies.last()));
    } else {
        assert(rows + bodies == rows);
    }
}

/// A chunk from another peer that is not a `TAIL` leaves a connection's
/// buffer as it was and hands nothing over.
pub proof fn lemma_other_peer_untouched(rows: Seq<Seq<u8>>, id: u16, kind: ChunkKind, handle: u16, data: Seq<u8>)
    requires
        handle != id,
        kind != ChunkKind::Tail,
    ensures
        rows_after(rows, id, kind, handle, data) == rows,
        rows_sent(rows, id, kind, handle, data) is None,
{
}

} // verus!

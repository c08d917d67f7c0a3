//! The life of a connection to the tablet, and what each answer of the
//! driver means for it.
//!
//! The driver is reached through six calls. This module makes none of them:
//! the caller makes the call and hands the answer to the `Connection`, which
//! decides whether the answer is good, what it holds, and at which stage the
//! connection stands afterwards. A call that the stage does not allow is
//! refused before the driver is asked.
use crate::c_type_aliases::{BOOL, HCTX, INT, UINT};
use crate::log_context::LOGCONTEXT;
use crate::packet::Packet;
use crate::wtpkt::WTPKT;
use vstd::prelude::*;

verus! {

/// The stage at which a connection stands.
#[derive(Clone, Copy, Debug, PartialEq, Eq, Structural)]
pub enum Stage {
    /// Nothing is known yet of the context that will be asked for.
    Unconfigured,
    /// The context holds a default of the driver, with the caller's changes.
    Configured,
    /// The driver has opened the context and given out a handle.
    Open,
    /// The handle has been closed. Nothing follows this stage.
    Closed,
}

/// Why an answer of the driver, or a call, is refused.
#[derive(Clone, Copy, Debug, PartialEq, Eq, Structural)]
pub enum ProtocolError {
    /// The connection is at a stage that does not allow the call.
    WrongStage,
    /// The driver answered zero: what was asked for is absent, unsupported or failed.
    Failed,
    /// The number of bytes is not that of the record: the buffer and the
    /// driver disagree on the record's size.
    SizeMismatch,
    /// The packet reports a change of a data item that the context did not
    /// ask for.
    UnrequestedData,
}

/// What happens to a connection.
#[derive(Clone, Copy, Debug, PartialEq, Eq, Structural)]
pub enum Event {
    /// The driver answered the query for a default context: `reported` is the
    /// number of bytes that it says it wrote, `len` the length of the buffer.
    DefaultContext { reported: UINT, len: usize },
    /// The caller changes the context.
    Edit,
    /// The driver answered the call that opens the context with `handle`.
    OpenAnswer { handle: HCTX },
    /// The driver answered the call that closes the context with `result`.
    CloseAnswer { result: BOOL },
}

/// What the answer to a query is worth, where the record that was asked for
/// has `expected` bytes, the driver reports `reported` bytes and the buffer
/// has `len` bytes. Zero from the driver means that nothing was written; any
/// other disagreement on the size is an error of the caller.
pub open spec fn query_outcome(reported: UINT, expected: nat, len: nat) -> Result<
    (),
    ProtocolError,
> {
    if reported == 0 {
        Err(ProtocolError::Failed)
    } else if reported != expected || len != expected {
        Err(ProtocolError::SizeMismatch)
    } else {
        Ok(())
    }
}

/// True when a connection at `stage` takes `event` as its next step. An
/// event that it does not take leaves it as it is.
pub open spec fn accepts(stage: Stage, event: Event) -> bool {
    match event {
        Event::DefaultContext { reported, len } => (stage == Stage::Unconfigured || stage
            == Stage::Configured) && query_outcome(reported, LOGCONTEXT::SIZE as nat, len as nat) is Ok,
        Event::Edit => stage == Stage::Configured,
        Event::OpenAnswer { handle } => stage == Stage::Configured && handle.raw() != 0,
        Event::CloseAnswer { result } => stage == Stage::Open && result != 0,
    }
}

/// The stage at which a connection stands after `event`, if it stood at
/// `stage` before.
pub open spec fn next_stage(stage: Stage, event: Event) -> Stage {
    if !accepts(stage, event) {
        stage
    } else {
        match event {
            Event::DefaultContext { .. } => Stage::Configured,
            Event::Edit => Stage::Configured,
            Event::OpenAnswer { .. } => Stage::Open,
            Event::CloseAnswer { .. } => Stage::Closed,
        }
    }
}

/// Nothing follows the closing of a connection: whatever happens, it stays
/// closed, and no event is taken.
pub proof fn lemma_closed_is_final(event: Event)
    ensures
        !accepts(Stage::Closed, event),
        next_stage(Stage::Closed, event) == Stage::Closed,
{
}

/// A connection becomes open only by a good answer to the opening of a
/// configured context.
pub proof fn lemma_open_only_by_opening(stage: Stage, event: Event)
    requires
        stage != Stage::Open,
        next_stage(stage, event) == Stage::Open,
    ensures
        stage == Stage::Configured,
        event matches Event::OpenAnswer { handle } && handle.raw() != 0,
{
}

/// From an open connection there is no way back: it stays open until it is
/// closed.
pub proof fn lemma_no_way_back(event: Event)
    ensures
        next_stage(Stage::Open, event) == Stage::Open || next_stage(Stage::Open, event)
            == Stage::Closed,
{
}

/// A connection is closed once: after the close that succeeds, no further
/// close is taken.
pub proof fn lemma_close_succeeds_once(first: BOOL, second: BOOL)
    requires
        first != 0,
    ensures
        accepts(Stage::Open, Event::CloseAnswer { result: first }),
        !accepts(
            next_stage(Stage::Open, Event::CloseAnswer { result: first }),
            Event::CloseAnswer { result: second },
        ),
{
}

/// Checks the answer to a query for a record of `expected` bytes, where the
/// driver reports `reported` bytes and the buffer that it wrote to has `len`
/// bytes.
pub fn check_query(reported: UINT, expected: usize, len: usize) -> (r: Result<(), ProtocolError>)
    ensures
        r == query_outcome(reported, expected as nat, len as nat),
{
    if reported == 0 {
        Err(ProtocolError::Failed)
    } else if reported as u64 != expected as u64 || len != expected {
        Err(ProtocolError::SizeMismatch)
    } else {
        Ok(())
    }
}

/// The bytes of packet number `index` in a buffer of packets that stand one
/// after the other.
pub open spec fn packet_bytes(bytes: Seq<u8>, index: int) -> Seq<u8> {
    bytes.subrange(index * Packet::spec_size(), (index + 1) * Packet::spec_size())
}

/// True when `packets` are the first packets of the buffer `bytes`, in the
/// order in which they stand there.
pub open spec fn packets_of(bytes: Seq<u8>, packets: Seq<Packet>) -> bool {
    forall|i: int| 0 <= i < packets.len() ==> (#[trigger] packets[i]).wire() == packet_bytes(bytes, i)
}

/// True when each of `packets` reports as changed only what is in `asked`.
pub open spec fn all_within(packets: Seq<Packet>, asked: WTPKT) -> bool {
    forall|i: int| 0 <= i < packets.len() ==> (#[trigger] packets[i]).pkChanged@.subset_of(asked@)
}

/// What the answer to the fetch of a range is worth before a packet is
/// read, where the driver reports `total` packets in the range and `copied`
/// packets written, and the buffer of `len` bytes was made for `capacity`
/// packets. Zero packets in the range is the driver's sign of failure. A
/// buffer of another size than `capacity` packets, and a number of written
/// packets that the buffer cannot hold, are errors of size.
pub open spec fn range_outcome(total: INT, copied: INT, capacity: usize, len: nat) -> Result<
    (),
    ProtocolError,
> {
    if total <= 0 {
        Err(ProtocolError::Failed)
    } else if len != capacity * Packet::spec_size() || copied < 0 || copied > capacity {
        Err(ProtocolError::SizeMismatch)
    } else {
        Ok(())
    }
}

/// A connection to the tablet, at one stage of its life.
pub struct Connection {
    stage: Stage,
    context: LOGCONTEXT,
    handle: HCTX,
}

impl Connection {
    /// A connection holds a handle exactly while it is open.
    #[verifier::type_invariant]
    spec fn holds_handle_while_open(self) -> bool {
        (self.stage == Stage::Open) == (self.handle.raw() != 0)
    }

    /// The stage at which the connection stands.
    pub closed spec fn spec_stage(&self) -> Stage {
        self.stage
    }

    /// The context of the connection as it is now known.
    pub closed spec fn spec_context(&self) -> LOGCONTEXT {
        self.context
    }

    /// The handle of the connection while it is open, else the null handle.
    pub closed spec fn spec_handle(&self) -> HCTX {
        self.handle
    }

    /// A connection of which nothing is known yet.
    pub fn new() -> (r: Connection)
        ensures
            r.stage() == Stage::Unconfigured,
            r.context().is_zero(),
            r.spec_handle().raw() == 0,
    {
        Connection {
            stage: Stage::Unconfigured,
            context: LOGCONTEXT::default(),
            handle: HCTX::null(),
        }
    }

    /// The stage at which the connection stands.
    #[verifier::when_used_as_spec(spec_stage)]
    pub fn stage(&self) -> (r: Stage)
        ensures
            r == self.stage(),
    {
        self.stage
    }

    /// The context of the connection as it is now known.
    #[verifier::when_used_as_spec(spec_context)]
    pub fn context(&self) -> (r: LOGCONTEXT)
        ensures
            r == self.context(),
    {
        self.context
    }

    /// The handle to use in calls to the driver: there is one while the
    /// connection is open, and it is not null.
    pub fn handle(&self) -> (r: Option<HCTX>)
        ensures
            r is Some <==> self.stage() == Stage::Open,
            r matches Some(handle) ==> handle == self.spec_handle() && handle.raw() != 0,
    {
        proof {
            use_type_invariant(self);
        }
        if self.stage == Stage::Open {
            Some(self.handle)
        } else {
            None
        }
    }

    /// Takes the driver's answer to the query for a default context: the
    /// number of bytes that the driver reports, and the buffer that it wrote
    /// to. A good answer makes the connection configured, with the context
    /// that the bytes stand for. Any other answer, and any answer to a
    /// connection that is open or closed, leaves it as it is.
    pub fn populate(&mut self, reported: UINT, bytes: &[u8]) -> (r: Result<(), ProtocolError>)
        ensures
            r == (if old(self).stage() == Stage::Open || old(self).stage() == Stage::Closed {
                Err(ProtocolError::WrongStage)
            } else {
                query_outcome(reported, LOGCONTEXT::SIZE as nat, bytes@.len())
            }),
            r is Ok <==> accepts(
                old(self).stage(),
                Event::DefaultContext { reported, len: bytes@.len() as usize },
            ),
            final(self).stage() == next_stage(
                old(self).stage(),
                Event::DefaultContext { reported, len: bytes@.len() as usize },
            ),
            r is Ok ==> final(self).context().wire() == bytes@,
            r is Err ==> final(self).context() == old(self).context(),
            final(self).spec_handle() == old(self).spec_handle(),
    {
        proof {
            use_type_invariant(&*self);
        }
        if self.stage == Stage::Open || self.stage == Stage::Closed {
            return Err(ProtocolError::WrongStage);
        }
        match check_query(reported, LOGCONTEXT::SIZE, bytes.len()) {
            Err(error) => Err(error),
            Ok(()) => {
                match LOGCONTEXT::from_bytes(bytes) {
                    Some(context) => {
                        self.stage = Stage::Configured;
                        self.context = context;
                        Ok(())
                    },
                    None => Err(ProtocolError::SizeMismatch),
                }
            },
        }
    }

    /// Replaces the context by `context`: the default with the caller's
    /// changes. Only a configured connection takes it.
    pub fn edit(&mut self, context: LOGCONTEXT) -> (r: Result<(), ProtocolError>)
        ensures
            r == (if old(self).stage() == Stage::Configured {
                Ok(())
            } else {
                Err(ProtocolError::WrongStage)
            }),
            r is Ok <==> accepts(old(self).stage(), Event::Edit),
            final(self).stage() == next_stage(old(self).stage(), Event::Edit),
            final(self).context() == (if r is Ok {
                context
            } else {
                old(self).context()
            }),
            final(self).spec_handle() == old(self).spec_handle(),
    {
        proof {
            use_type_invariant(&*self);
        }
        if self.stage == Stage::Configured {
            self.context = context;
            Ok(())
        } else {
            Err(ProtocolError::WrongStage)
        }
    }

    /// Takes the driver's answer to the opening of the context: the handle
    /// that it returned and the context as the driver left it. A handle that
    /// is not null makes a configured connection open, with that handle and
    /// that context. The null handle means that the driver opened nothing.
    pub fn opened(&mut self, handle: HCTX, answer: LOGCONTEXT) -> (r: Result<HCTX, ProtocolError>)
        ensures
            r == (if old(self).stage() != Stage::Configured {
                Err(ProtocolError::WrongStage)
            } else if handle.raw() == 0 {
                Err(ProtocolError::Failed)
            } else {
                Ok(handle)
            }),
            r is Ok <==> accepts(old(self).stage(), Event::OpenAnswer { handle }),
            final(self).stage() == next_stage(old(self).stage(), Event::OpenAnswer { handle }),
            final(self).context() == (if r is Ok {
                answer
            } else {
                old(self).context()
            }),
            final(self).spec_handle() == (if r is Ok {
                handle
            } else {
                old(self).spec_handle()
            }),
    {
        proof {
            use_type_invariant(&*self);
        }
        if self.stage != Stage::Configured {
            Err(ProtocolError::WrongStage)
        } else if handle.is_null() {
            Err(ProtocolError::Failed)
        } else {
            *self = Connection { stage: Stage::Open, context: answer, handle };
            Ok(handle)
        }
    }

    /// Takes the driver's answer to the closing of the handle. Anything but
    /// zero closes an open connection, whose handle is then gone. A
    /// connection that is not open has no handle to close: the call is
    /// refused, as every close after the first is.
    pub fn closed(&mut self, result: BOOL) -> (r: Result<(), ProtocolError>)
        ensures
            r == (if old(self).stage() != Stage::Open {
                Err(ProtocolError::WrongStage)
            } else if result == 0 {
                Err(ProtocolError::Failed)
            } else {
                Ok(())
            }),
            r is Ok <==> accepts(old(self).stage(), Event::CloseAnswer { result }),
            final(self).stage() == next_stage(old(self).stage(), Event::CloseAnswer { result }),
            final(self).context() == old(self).context(),
            r is Ok ==> final(self).spec_handle().raw() == 0,
            r is Err ==> final(self).spec_handle() == old(self).spec_handle(),
    {
        proof {
            use_type_invariant(&*self);
        }
        if self.stage != Stage::Open {
            Err(ProtocolError::WrongStage)
        } else if result == 0 {
            Err(ProtocolError::Failed)
        } else {
            *self = Connection { stage: Stage::Closed, context: self.context, handle: HCTX::null() };
            Ok(())
        }
    }

    /// True when the context asks for every data item and for none in
    /// relative mode: the one case in which the driver writes packets with
    /// the fixed layout of `Packet`.
    pub fn asks_for_full_packets(&self) -> (r: bool)
        ensures
            r == (WTPKT::defined().subset_of(self.context().lcPktData@)
                && self.context().lcPktMode@ == Set::<nat>::empty()),
    {
        self.context.lcPktData.is_all() && self.context.lcPktMode.is_empty()
    }

    /// Takes the driver's answer to the fetch of one packet: whether it found
    /// the packet, and the buffer that it wrote to. The packet is handed on
    /// only if everything that it reports as changed is a data item that the
    /// context asked for.
    pub fn accept_packet(&self, found: BOOL, bytes: &[u8]) -> (r: Result<Packet, ProtocolError>)
        ensures
            self.stage() != Stage::Open ==> r == Err::<Packet, ProtocolError>(
                ProtocolError::WrongStage,
            ),
            self.stage() == Stage::Open && found == 0 ==> r == Err::<Packet, ProtocolError>(
                ProtocolError::Failed,
            ),
            self.stage() == Stage::Open && found != 0 && bytes@.len() != Packet::spec_size() ==> r
                == Err::<Packet, ProtocolError>(ProtocolError::SizeMismatch),
            self.stage() == Stage::Open && found != 0 && bytes@.len() == Packet::spec_size()
                ==> match r {
                Ok(packet) => packet.wire() == bytes@ && packet.pkChanged@.subset_of(
                    self.context().lcPktData@,
                ),
                Err(error) => error == ProtocolError::UnrequestedData && exists|packet: Packet|
                    packet.wire() == bytes@ && !packet.pkChanged@.subset_of(
                        self.context().lcPktData@,
                    ),
            },
            r matches Ok(packet) ==> packet.pkChanged@.subset_of(self.context().lcPktData@),
    {
        if self.stage != Stage::Open {
            return Err(ProtocolError::WrongStage);
        }
        if found == 0 {
            return Err(ProtocolError::Failed);
        }
        match Packet::from_bytes(bytes) {
            None => Err(ProtocolError::SizeMismatch),
            Some(packet) => {
                if self.context.lcPktData.contains(packet.pkChanged) {
                    Ok(packet)
                } else {
                    Err(ProtocolError::UnrequestedData)
                }
            },
        }
    }

    /// Takes the driver's answer to the fetch of a range of packets: the
    /// number of packets that it found in the range, the number that it
    /// wrote, and the buffer that it wrote to, which was made for `capacity`
    /// packets. The packets written are handed on in their order, but only
    /// if each of them reports as changed nothing but data items that the
    /// context asked for.
    pub fn accept_packets(&self, total: INT, copied: INT, capacity: usize, bytes: &[u8]) -> (r:
        Result<Vec<Packet>, ProtocolError>)
        ensures
            self.stage() != Stage::Open ==> r == Err::<Vec<Packet>, ProtocolError>(
                ProtocolError::WrongStage,
            ),
            self.stage() == Stage::Open && range_outcome(total, copied, capacity, bytes@.len())
                is Err ==> r is Err && r->Err_0 == range_outcome(
                total,
                copied,
                capacity,
                bytes@.len(),
            )->Err_0,
            self.stage() == Stage::Open && range_outcome(total, copied, capacity, bytes@.len())
                is Ok ==> match r {
                Ok(packets) => packets@.len() == copied && packets_of(bytes@, packets@),
                Err(error) => error == ProtocolError::UnrequestedData && exists|
                    index: int,
                    packet: Packet,
                |
                    0 <= index < copied && packet.wire() == packet_bytes(bytes@, index)
                        && !packet.pkChanged@.subset_of(self.context().lcPktData@),
            },
            r matches Ok(packets) ==> all_within(packets@, self.context().lcPktData),
    {
        if self.stage != Stage::Open {
            return Err(ProtocolError::WrongStage);
        }
        if total <= 0 {
            return Err(ProtocolError::Failed);
        }
        let size: usize = Packet::size();
        let len: usize = bytes.len();
        let room: usize = match capacity.checked_mul(size) {
            Some(room) => room,
            None => {
                return Err(ProtocolError::SizeMismatch);
            },
        };
        if len != room || copied < 0 || copied as u64 > capacity as u64 {
            return Err(ProtocolError::SizeMismatch);
        }
        let count: usize = copied as usize;
        let mut packets: Vec<Packet> = Vec::new();
        let mut index: usize = 0;
        let mut offset: usize = 0;
        while index < count
            invariant
                index <= count <= capacity,
                count == copied,
                self.stage() == Stage::Open,
                range_outcome(total, copied, capacity, bytes@.len()) is Ok,
                size == Packet::spec_size(),
                offset == index * size,
                bytes@.len() == capacity * size,
                bytes@.len() == len,
                packets@.len() == index,
                packets_of(bytes@, packets@),
                all_within(packets@, self.context().lcPktData),
            decreases count - index,
        {
            assert((index + 1) * size <= capacity * size) by (nonlinear_arith)
                requires
                    index + 1 <= capacity,
            ;
            assert((index + 1) * size == index * size + size) by (nonlinear_arith);
            let chunk: &[u8] = vstd::slice::slice_subrange(bytes, offset, offset + size);
            match Packet::from_bytes(chunk) {
                None => {
                    return Err(ProtocolError::SizeMismatch);
                },
                Some(packet) => {
                    assert(packet.wire() == packet_bytes(bytes@, index as int));
                    if !self.context.lcPktData.contains(packet.pkChanged) {
                        return Err(ProtocolError::UnrequestedData);
                    }
                    packets.push(packet);
                },
            }
            index += 1;
            offset += size;
        }
        Ok(packets)
    }

    /// Takes the driver's answer to the query for the extent of the queue:
    /// whether it succeeded, and the serial numbers of the oldest and of the
    /// newest packet that wait.
    pub fn queue_extent(&self, result: BOOL, oldest: UINT, newest: UINT) -> (r: Result<
        (UINT, UINT),
        ProtocolError,
    >)
        ensures
            r == (if self.stage() != Stage::Open {
                Err(ProtocolError::WrongStage)
            } else if result == 0 {
                Err(ProtocolError::Failed)
            } else {
                Ok((oldest, newest))
            }),
    {
        if self.stage != Stage::Open {
            Err(ProtocolError::WrongStage)
        } else if result == 0 {
            Err(ProtocolError::Failed)
        } else {
            Ok((oldest, newest))
        }
    }
}

} // verus!

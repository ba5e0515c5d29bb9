//! Per-connection state: the read gate and the queue of pending writes.

use std::collections::VecDeque;
use vstd::prelude::*;
use crate::context::Context;
use crate::error::{io_error_kind, SocketError};
use crate::messages::{CfmSend, Confirm, ConnHandle, Delivery, Message, ServiceUserHandle};

verus! {

/// A Send that has not gone out in full yet.
#[derive(Debug)]
pub struct PendingWrite {
    /// Reflected in the cfm
    pub context: Context,
    /// How many bytes of `data` have been written so far
    pub sent: usize,
    /// The data of the Send
    pub data: Vec<u8>,
    /// Who gets the cfm
    pub reply_to: ServiceUserHandle,
}

impl PendingWrite {
    /// No more has been sent than there is.
    pub open spec fn wf(self) -> bool {
        self.sent <= self.data@.len()
    }

    /// The bytes that have still to be written.
    pub open spec fn remaining(self) -> Seq<u8> {
        self.data@.skip(self.sent as int)
    }

    /// The bytes that a write with the outcome `wrote` has put on the wire.
    /// A count beyond what was left stands for all of it.
    pub open spec fn written_by(self, wrote: Result<usize, std::io::Error>) -> Seq<u8> {
        match wrote {
            Ok(n) => if n < self.remaining().len() {
                self.remaining().take(n as int)
            } else {
                self.remaining()
            },
            Err(_) => Seq::empty(),
        }
    }

    /// What stays queued after a write with the outcome `wrote`: the write
    /// with its progress, if only a part went out; nothing, if all went out
    /// or the write failed.
    pub open spec fn kept_after(self, wrote: Result<usize, std::io::Error>) -> Option<
        PendingWrite,
    > {
        match wrote {
            Ok(n) => if n < self.data@.len() - self.sent {
                Some(PendingWrite { sent: (self.sent + n) as usize, ..self })
            } else {
                None
            },
            Err(_) => None,
        }
    }

    /// The cfm that a write with the outcome `wrote` calls for: none while a
    /// part is left, the whole length once all went out, the kind of the
    /// error if the write failed.
    pub open spec fn confirm_after(
        self,
        handle: ConnHandle,
        wrote: Result<usize, std::io::Error>,
    ) -> Option<Delivery> {
        match wrote {
            Ok(n) => if n < self.data@.len() - self.sent {
                None
            } else {
                Some(
                    Delivery::send_confirm(
                        self.reply_to,
                        handle,
                        self.context,
                        Ok(self.data.len()),
                    ),
                )
            },
            Err(e) => Some(
                Delivery::send_confirm(
                    self.reply_to,
                    handle,
                    self.context,
                    Err(SocketError::IOError(io_error_kind(e))),
                ),
            ),
        }
    }

    /// The cfm that tells the sender that the connection went away first.
    pub open spec fn dropped_confirm(self, handle: ConnHandle) -> Delivery {
        Delivery::send_confirm(self.reply_to, handle, self.context, Err(SocketError::Dropped))
    }

    /// Takes the outcome of writing `remaining()` to the connection `handle`
    /// and gives back what stays queued and what is confirmed.
    pub fn settle(self, handle: ConnHandle, wrote: Result<usize, std::io::Error>) -> (res: (
        Option<PendingWrite>,
        Option<Delivery>,
    ))
        requires
            self.wf(),
        ensures
            res.0 == self.kept_after(wrote),
            res.1 == self.confirm_after(handle, wrote),
            res.0 matches Some(kept) ==> kept.wf(),
    {
        let to_send = self.data.len() - self.sent;
        match wrote {
            Ok(len) => {
                if len < to_send {
                    let kept = PendingWrite {
                        context: self.context,
                        sent: self.sent + len,
                        data: self.data,
                        reply_to: self.reply_to,
                    };
                    (Some(kept), None)
                } else {
                    let cfm = CfmSend {
                        handle,
                        context: self.context,
                        result: Ok(self.sent + to_send),
                    };
                    (None, Some(Delivery { to: self.reply_to, message: Message::Confirm(Confirm::Send(cfm)) }))
                }
            },
            Err(err) => {
                let cfm = CfmSend {
                    handle,
                    context: self.context,
                    result: Err(SocketError::from(err)),
                };
                (None, Some(Delivery { to: self.reply_to, message: Message::Confirm(Confirm::Send(cfm)) }))
            },
        }
    }
}

/// What a connection is, to the contracts: who hears about it, its handle,
/// whether a Received Indication awaits its Response, and the writes that
/// wait for the socket, oldest first.
pub struct ConnState {
    pub ind_to: ServiceUserHandle,
    pub handle: ConnHandle,
    pub outstanding: bool,
    pub pending: Seq<PendingWrite>,
}

/// The bytes that a queue of writes has still to put on the wire, in order.
pub open spec fn unsent_of(pending: Seq<PendingWrite>) -> Seq<u8>
    decreases pending.len(),
{
    if pending.len() == 0 {
        Seq::empty()
    } else {
        unsent_of(pending.drop_last()) + pending.last().remaining()
    }
}

impl ConnState {
    /// Every queued write is well formed.
    pub open spec fn wf(self) -> bool {
        forall|i: int| 0 <= i < self.pending.len() ==> (#[trigger] self.pending[i]).wf()
    }

    /// The bytes accepted for sending that have not reached the wire.
    pub open spec fn unsent(self) -> Seq<u8> {
        unsent_of(self.pending)
    }

    /// One `CfmSend` with `Dropped` for each queued write, oldest first: what
    /// the end of a connection owes to those who sent on it.
    pub open spec fn drop_confirms(self) -> Seq<Delivery> {
        Seq::new(self.pending.len(), |i: int| self.pending[i].dropped_confirm(self.handle))
    }

    /// Whether a Send has its write attempted at once: only with nothing
    /// queued before it.
    pub open spec fn writes_at_once(self) -> bool {
        self.pending.len() == 0
    }

    /// The connection after a Send arrived as `write`, whose write (attempted
    /// only if nothing was queued) had the outcome `wrote`.
    pub open spec fn after_send(
        self,
        write: PendingWrite,
        wrote: Result<usize, std::io::Error>,
    ) -> ConnState {
        if !self.writes_at_once() {
            ConnState { pending: self.pending.push(write), ..self }
        } else {
            match write.kept_after(wrote) {
                Some(kept) => ConnState { pending: seq![kept], ..self },
                None => self,
            }
        }
    }

    /// The cfm, if any, that the Send gets at once.
    pub open spec fn send_confirm(
        self,
        handle: ConnHandle,
        write: PendingWrite,
        wrote: Result<usize, std::io::Error>,
    ) -> Option<Delivery> {
        if !self.writes_at_once() {
            None
        } else {
            write.confirm_after(handle, wrote)
        }
    }

    /// The connection after the oldest queued write was attempted with the
    /// outcome `wrote`. With nothing queued nothing changes.
    pub open spec fn after_drain(self, wrote: Result<usize, std::io::Error>) -> ConnState {
        if self.pending.len() == 0 {
            self
        } else {
            match self.pending[0].kept_after(wrote) {
                Some(kept) => ConnState { pending: self.pending.update(0, kept), ..self },
                None => ConnState { pending: self.pending.skip(1), ..self },
            }
        }
    }

    /// The cfm, if any, that the attempt on the oldest queued write calls for.
    pub open spec fn drain_confirm(self, wrote: Result<usize, std::io::Error>) -> Option<
        Delivery,
    > {
        if self.pending.len() == 0 {
            None
        } else {
            self.pending[0].confirm_after(self.handle, wrote)
        }
    }

    /// Whether draining goes on with the next queued write: the oldest went
    /// out in full and another one waits.
    pub open spec fn drain_continues(self, wrote: Result<usize, std::io::Error>) -> bool {
        &&& self.pending.len() > 1
        &&& wrote matches Ok(n)
        &&& n >= self.pending[0].data@.len() - self.pending[0].sent
    }
}

/// Created for every connection received on a listener.
#[derive(Debug)]
pub struct ConnectedSocket {
    /// Who hears about this connection
    pub ind_to: ServiceUserHandle,
    /// The handle of this connection
    pub handle: ConnHandle,
    /// There's a read the user hasn't processed yet
    pub outstanding: bool,
    /// Queue of pending writes
    pub pending_writes: VecDeque<PendingWrite>,
}

impl View for ConnectedSocket {
    type V = ConnState;

    open spec fn view(&self) -> ConnState {
        ConnState {
            ind_to: self.ind_to,
            handle: self.handle,
            outstanding: self.outstanding,
            pending: self.pending_writes@,
        }
    }
}

impl ConnectedSocket {
    /// A connection just accepted: the read gate open, nothing queued.
    pub fn new(ind_to: ServiceUserHandle, handle: ConnHandle) -> (cs: ConnectedSocket)
        ensures
            cs@ == (ConnState { ind_to, handle, outstanding: false, pending: Seq::empty() }),
            cs@.wf(),
    {
        ConnectedSocket { ind_to, handle, outstanding: false, pending_writes: VecDeque::new() }
    }

    /// The bytes to hand to the socket next: what is left of the oldest
    /// queued write, or `None` with an empty queue.
    pub fn next_slice(&self) -> (bytes: Option<&[u8]>)
        requires
            self@.wf(),
        ensures
            match bytes {
                Some(b) => self@.pending.len() > 0 && b@ == self@.pending[0].remaining(),
                None => self@.pending.len() == 0,
            },
    {
        if self.pending_writes.len() == 0 {
            None
        } else {
            let pw = &self.pending_writes[0];
            Some(vstd::slice::slice_subrange(pw.data.as_slice(), pw.sent, pw.data.len()))
        }
    }

    /// Takes a Send in. With writes queued it joins them and `wrote` is not
    /// looked at; with none queued `wrote` is the outcome of writing what is
    /// left of its data to the socket.
    pub fn send(
        &mut self,
        handle: ConnHandle,
        write: PendingWrite,
        wrote: Result<usize, std::io::Error>,
    ) -> (cfm: Option<Delivery>)
        requires
            old(self)@.wf(),
            write.wf(),
        ensures
            final(self)@ == old(self)@.after_send(write, wrote),
            cfm == old(self)@.send_confirm(handle, write, wrote),
            final(self)@.wf(),
    {
        if self.pending_writes.len() != 0 {
            self.pending_writes.push_back(write);
            None
        } else {
            let (kept, cfm) = write.settle(handle, wrote);
            if let Some(pw) = kept {
                self.pending_writes.push_back(pw);
                assert(self.pending_writes@ =~= seq![pw]);
            }
            cfm
        }
    }

    /// Takes the outcome of writing `next_slice()` to the socket. The second
    /// result says whether to go on with the next queued write.
    pub fn drain(&mut self, wrote: Result<usize, std::io::Error>) -> (res: (Option<Delivery>, bool))
        requires
            old(self)@.wf(),
        ensures
            final(self)@ == old(self)@.after_drain(wrote),
            res.0 == old(self)@.drain_confirm(wrote),
            res.1 == old(self)@.drain_continues(wrote),
            final(self)@.wf(),
    {
        let handle = self.handle;
        match self.pending_writes.pop_front() {
            None => (None, false),
            Some(front) => {
                assert(front.wf());
                let is_ok = wrote.is_ok();
                let (kept, cfm) = front.settle(handle, wrote);
                match kept {
                    Some(pw) => {
                        self.pending_writes.push_front(pw);
                        assert(self.pending_writes@ =~= old(self).pending_writes@.update(0, pw));
                        (cfm, false)
                    },
                    None => {
                        assert(self.pending_writes@ =~= old(self).pending_writes@.skip(1));
                        (cfm, is_ok && self.pending_writes.len() != 0)
                    },
                }
            },
        }
    }

    /// The cfms owed when the connection ends: `Dropped`, to the sender of
    /// each queued write, oldest first.
    pub fn drop_confirms(&self) -> (out: Vec<Delivery>)
        ensures
            out@ == self@.drop_confirms(),
    {
        let mut out: Vec<Delivery> = Vec::new();
        let mut i: usize = 0;
        while i < self.pending_writes.len()
            invariant
                i <= self.pending_writes@.len(),
                out@ == self@.drop_confirms().take(i as int),
            decreases self.pending_writes@.len() - i,
        {
            let pw = &self.pending_writes[i];
            let cfm = CfmSend {
                handle: self.handle,
                context: pw.context,
                result: Err(SocketError::Dropped),
            };
            out.push(Delivery { to: pw.reply_to, message: Message::Confirm(Confirm::Send(cfm)) });
            assert(out@ =~= self@.drop_confirms().take(i + 1));
            i = i + 1;
        }
        assert(out@ =~= self@.drop_confirms());
        out
    }
}

} // verus!

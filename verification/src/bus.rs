//! The transaction block, the driver-limit validation, and the submit
//! semantics, executed here against a deterministic simulated adapter.
//!
//! Dispatch against a real device node needs raw pointers and an `ioctl`
//! call, which stays with the callers; they reuse the same block type,
//! validation and error mapping. The simulated adapter models the device
//! the observable way: it remembers the last byte written to it and answers
//! every read with that byte incremented by one (wrapping).

use vstd::prelude::*;

use crate::error::spec_error_of_code;
use crate::error::Error;
use crate::error::ENXIO;
use crate::message::Message;
use crate::message::I2C_M_RD;

verus! {

/// The kernel's combined read/write control request code.
pub const I2C_RDWR: u32 = 0x0707;

/// The driver takes at most this many operations in one transaction.
pub const I2C_MAX_MSGS: i32 = 42;

/// The transaction block the control request takes: an ordered sequence of
/// operations and their count. The kernel-facing form carries a pointer to
/// the descriptor array and a 32-bit signed count; here the block owns its
/// operations so the buffers outlive the dispatch.
pub struct IoctlData {
    /// The operations, in execution order.
    pub messages: Vec<Message>,
    /// How many operations the block holds, as the kernel reads it.
    pub count: i32,
}

impl IoctlData {
    /// The count matches the sequence and every operation respects the
    /// per-operation length limit.
    pub open spec fn wf(&self) -> bool {
        &&& self.count == self.messages@.len()
        &&& forall|i: int|
            0 <= i < self.messages@.len() ==> (#[trigger] self.messages@[i]).wf()
    }

    /// Bundles operations into a transaction block; the count is their
    /// number. The 42-operation driver limit is enforced at submit time,
    /// not here, so an oversized transaction still gets its precise error
    /// from `submit` rather than being impossible to express.
    pub fn new(messages: Vec<Message>) -> (r: IoctlData)
        requires
            messages@.len() <= 0x7fff_ffff,
            forall|i: int| 0 <= i < messages@.len() ==> (#[trigger] messages@[i]).wf(),
        ensures
            r.wf(),
            r.messages@ == messages@,
            r.count == messages@.len(),
    {
        let count = messages.len() as i32;
        IoctlData { messages, count }
    }
}

/// The byte a read receives from the simulated device: the last byte
/// written to it, incremented by one, wrapping at 255.
pub open spec fn sim_read_byte(last: u8) -> u8 {
    if last == 255 {
        0
    } else {
        (last + 1) as u8
    }
}

/// The device state one operation leaves behind: a non-empty write makes
/// its last byte the device's last-written byte, everything else leaves the
/// state alone.
pub open spec fn sim_step(last: u8, m: Message) -> u8 {
    if !m.is_read() && m.data@.len() > 0 {
        m.data@[m.data@.len() - 1]
    } else {
        last
    }
}

/// The device state after the first `n` operations of `ops` have run,
/// starting from last-written byte `last`.
pub open spec fn sim_state(last: u8, ops: Seq<Message>, n: int) -> u8
    decreases n,
{
    if n <= 0 {
        last
    } else {
        sim_step(sim_state(last, ops, n - 1), ops[n - 1])
    }
}

/// The bytes operation `i` of `ops` holds after the transaction ran on the
/// simulated device: a read buffer is filled with the echo byte of the
/// state the earlier operations left, a write buffer is untouched.
pub open spec fn sim_result(last: u8, ops: Seq<Message>, i: int) -> Seq<u8> {
    if ops[i].is_read() {
        Seq::new(ops[i].data@.len(), |j: int| sim_read_byte(sim_state(last, ops, i)))
    } else {
        ops[i].data@
    }
}

/// A deterministic simulated bus adapter: one slave that either answers or
/// does not, and the last byte written to it.
#[derive(Clone, Copy, Debug, PartialEq, Eq, Structural)]
pub struct SimDevice {
    /// Whether the addressed slave acknowledges at all.
    pub slave_present: bool,
    /// The last byte any write left on the device.
    pub last: u8,
}

/// Owns one opened adapter and executes transactions on it. Concurrent use
/// is the caller's to serialize; the handle itself holds no lock.
pub struct BusHandle {
    /// The simulated adapter behind the handle.
    pub device: SimDevice,
}

/// Both sequences carry the same operations: same addresses, flags and
/// buffer contents, in the same order.
pub open spec fn msgs_unchanged(a: Seq<Message>, b: Seq<Message>) -> bool {
    &&& a.len() == b.len()
    &&& forall|i: int|
        0 <= i < a.len() ==> {
            &&& (#[trigger] b[i]).addr == a[i].addr
            &&& b[i].flags == a[i].flags
            &&& b[i].data@ == a[i].data@
        }
}

/// Both sequences carry the same descriptors: same addresses, flags and
/// buffer lengths, in the same order; only buffer contents may differ.
pub open spec fn headers_unchanged(a: Seq<Message>, b: Seq<Message>) -> bool {
    &&& a.len() == b.len()
    &&& forall|i: int|
        0 <= i < a.len() ==> {
            &&& (#[trigger] b[i]).addr == a[i].addr
            &&& b[i].flags == a[i].flags
            &&& b[i].data@.len() == a[i].data@.len()
        }
}

/// Everything `submit` does, as a relation between the handle and block
/// before and after the call and the returned value: the count check comes
/// first and touches nothing, a silent slave fails the whole transaction
/// untouched, and a successful run rewrites exactly the read buffers.
pub open spec fn submit_spec(
    pre_dev: SimDevice,
    pre: IoctlData,
    post_dev: SimDevice,
    post: IoctlData,
    r: Result<(), Error>,
) -> bool {
    &&& post.count == pre.count
    &&& if pre.count < 1 || pre.count > I2C_MAX_MSGS {
        &&& r == Err::<(), Error>(Error::TooManyOperations)
        &&& post_dev == pre_dev
        &&& msgs_unchanged(pre.messages@, post.messages@)
    } else if !pre_dev.slave_present {
        &&& r == Err::<(), Error>(Error::DeviceNotPresent)
        &&& post_dev == pre_dev
        &&& msgs_unchanged(pre.messages@, post.messages@)
    } else {
        &&& r == Ok::<(), Error>(())
        &&& post_dev.slave_present
        &&& post_dev.last == sim_state(pre_dev.last, pre.messages@, pre.messages@.len() as int)
        &&& headers_unchanged(pre.messages@, post.messages@)
        &&& forall|i: int|
            0 <= i < pre.messages@.len() ==> (#[trigger] post.messages@[i]).data@
                == sim_result(pre_dev.last, pre.messages@, i)
    }
}

impl BusHandle {
    /// Opens a handle on a simulated adapter node: a missing node fails
    /// with `DeviceUnavailable`, as opening a real device path does.
    pub fn open_simulated(node_present: bool, device: SimDevice) -> (r: Result<BusHandle, Error>)
        ensures
            node_present ==> (r matches Ok(h) && h.device == device),
            !node_present ==> r == Err::<BusHandle, Error>(Error::DeviceUnavailable),
    {
        if node_present {
            Ok(BusHandle { device })
        } else {
            Err(Error::DeviceUnavailable)
        }
    }

    /// Executes one transaction: validates the driver's count limit before
    /// anything touches the device, then runs the operations in order as
    /// one unit, filling each read buffer in place and reporting a silent
    /// slave as `DeviceNotPresent`.
    pub fn submit(&mut self, txn: &mut IoctlData) -> (r: Result<(), Error>)
        requires
            old(txn).wf(),
        ensures
            final(txn).wf(),
            submit_spec(old(self).device, *old(txn), final(self).device, *final(txn), r),
    {
        if txn.count < 1 || txn.count > I2C_MAX_MSGS {
            return Err(Error::TooManyOperations);
        }
        if !self.device.slave_present {
            let e = Error::from_os_code(ENXIO);
            assert(e == Error::DeviceNotPresent);
            return Err(e);
        }
        let ghost last0 = self.device.last;
        let ghost msgs0 = old(txn).messages@;
        let n = txn.messages.len();
        let mut i: usize = 0;
        while i < n
            invariant
                i <= n,
                n == msgs0.len(),
                txn.messages@.len() == n,
                txn.count == old(txn).count,
                old(txn).wf(),
                self.device.slave_present,
                self.device.last == sim_state(last0, msgs0, i as int),
                forall|k: int|
                    0 <= k < i ==> {
                        &&& (#[trigger] txn.messages@[k]).addr == msgs0[k].addr
                        &&& txn.messages@[k].flags == msgs0[k].flags
                        &&& txn.messages@[k].data@ == sim_result(last0, msgs0, k)
                    },
                forall|k: int|
                    i <= k < n ==> {
                        &&& (#[trigger] txn.messages@[k]).addr == msgs0[k].addr
                        &&& txn.messages@[k].flags == msgs0[k].flags
                        &&& txn.messages@[k].data@ == msgs0[k].data@
                    },
            decreases n - i,
        {
            let is_rd = (txn.messages[i].flags & I2C_M_RD) == I2C_M_RD;
            let len = txn.messages[i].data.len();
            assert(len == msgs0[i as int].data@.len());
            if is_rd {
                let v = if self.device.last == 255 {
                    0
                } else {
                    self.device.last + 1
                };
                let mut buf: Vec<u8> = Vec::new();
                while buf.len() < len
                    invariant
                        buf@.len() <= len,
                        forall|j: int| 0 <= j < buf@.len() ==> #[trigger] buf@[j] == v,
                    decreases len - buf@.len(),
                {
                    buf.push(v);
                }
                let addr = txn.messages[i].addr;
                let flags = txn.messages[i].flags;
                txn.messages[i] = Message { addr, flags, data: buf };
                proof {
                    assert(msgs0[i as int].is_read());
                    assert(txn.messages@[i as int].data@ =~= sim_result(last0, msgs0, i as int));
                }
            } else if len > 0 {
                self.device.last = txn.messages[i].data[len - 1];
            }
            proof {
                assert(sim_state(last0, msgs0, i + 1) == sim_step(
                    sim_state(last0, msgs0, i as int),
                    msgs0[i as int],
                ));
            }
            i += 1;
        }
        Ok(())
    }
}

/// The operation writes at least one byte to the device.
pub open spec fn is_nonempty_write(m: Message) -> bool {
    !m.is_read() && m.data@.len() > 0
}

/// Some operation before index `k` writes at least one byte.
pub open spec fn has_prior_nonempty_write(ops: Seq<Message>, k: int) -> bool {
    exists|j: int| 0 <= j < k && is_nonempty_write(#[trigger] ops[j])
}

/// Some operation of the transaction writes at least one byte.
pub open spec fn has_nonempty_write(ops: Seq<Message>) -> bool {
    exists|j: int| 0 <= j < ops.len() && is_nonempty_write(#[trigger] ops[j])
}

/// Once some earlier operation wrote to the device, the state at `k` no
/// longer depends on the state the transaction started from.
proof fn lemma_sim_state_independent(l1: u8, l2: u8, ops: Seq<Message>, k: int)
    requires
        0 <= k <= ops.len(),
        has_prior_nonempty_write(ops, k),
    ensures
        sim_state(l1, ops, k) == sim_state(l2, ops, k),
    decreases k,
{
    let j = choose|j: int| 0 <= j < k && is_nonempty_write(#[trigger] ops[j]);
    if j < k - 1 {
        assert(has_prior_nonempty_write(ops, k - 1));
        lemma_sim_state_independent(l1, l2, ops, k - 1);
    }
}

/// A transaction without a non-empty write leaves the device state alone.
proof fn lemma_sim_state_no_write(last: u8, ops: Seq<Message>, k: int)
    requires
        0 <= k <= ops.len(),
        !has_nonempty_write(ops),
    ensures
        sim_state(last, ops, k) == last,
    decreases k,
{
    if k > 0 {
        assert(!is_nonempty_write(ops[k - 1]));
        lemma_sim_state_no_write(last, ops, k - 1);
    }
}

/// Repeating one transaction on the deterministic simulated device mutates
/// the buffers identically each time: the results of a run that starts
/// from the state the previous identical run left are the results of that
/// previous run. This holds whenever every read of the transaction comes
/// after some non-empty write of it, and trivially when the transaction
/// writes nothing; a read placed before the transaction's first non-empty
/// write sees the state an earlier run left and is exempt from the law.
pub proof fn lemma_repeated_transaction_idempotent(last: u8, ops: Seq<Message>)
    requires
        has_nonempty_write(ops) ==> forall|k: int|
            0 <= k < ops.len() && (#[trigger] ops[k]).is_read() ==> has_prior_nonempty_write(
                ops,
                k,
            ),
    ensures
        forall|i: int|
            0 <= i < ops.len() ==> #[trigger] sim_result(
                sim_state(last, ops, ops.len() as int),
                ops,
                i,
            ) == sim_result(last, ops, i),
{
    let s1 = sim_state(last, ops, ops.len() as int);
    if !has_nonempty_write(ops) {
        lemma_sim_state_no_write(last, ops, ops.len() as int);
        assert(s1 == last);
    } else {
        assert forall|i: int| 0 <= i < ops.len() implies #[trigger] sim_result(s1, ops, i)
            == sim_result(last, ops, i) by {
            if ops[i].is_read() {
                lemma_sim_state_independent(s1, last, ops, i);
                assert(sim_result(s1, ops, i) =~= sim_result(last, ops, i));
            }
        }
    }
}

} // verus!

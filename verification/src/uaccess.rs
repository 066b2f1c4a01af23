//! Copies between kernel and user memory, and the polling protocol that
//! drives them across deferred page faults.
//!
//! User memory reaches these functions as a byte slice that starts at
//! the user address; kernel buffers as vectors.
use vstd::prelude::*;
use vstd::std_specs::convert::FromSpecImpl;
use crate::error::KernelError;

verus! {

/// Outcome of one attempt at a user copy.
#[derive(Debug, Clone, Copy, PartialEq, Eq, Structural)]
pub enum UAccessResult {
    /// The copy finished.
    Complete,
    /// The access faulted and may not be retried.
    AbortDenied,
    /// The access faulted; a fault handler must run before a retry.
    AbortDeferred,
}

/// The outcome a fault handler's exit status stands for: 0, 1 and 2 are
/// the three outcomes; any other status is treated as a denial.
pub open spec fn uaccess_status(value: u64) -> UAccessResult {
    if value == 0 {
        UAccessResult::Complete
    } else if value == 2 {
        UAccessResult::AbortDeferred
    } else {
        UAccessResult::AbortDenied
    }
}

impl From<u64> for UAccessResult {
    fn from(value: u64) -> (r: Self) {
        match value {
            0 => UAccessResult::Complete,
            1 => UAccessResult::AbortDenied,
            2 => UAccessResult::AbortDeferred,
            _ => UAccessResult::AbortDenied,
        }
    }
}

impl FromSpecImpl<u64> for UAccessResult {
    open spec fn obeys_from_spec() -> bool {
        true
    }

    open spec fn from_spec(value: u64) -> Self {
        uaccess_status(value)
    }
}

/// What the poller does next.
#[derive(Debug, Clone, Copy)]
pub enum UAccessStep {
    /// The operation is over, with this result.
    Ready(Result<usize, KernelError>),
    /// The fault handler has not finished; poll again later.
    Pending,
    /// Run the copy (again).
    Retry,
}

/// How a deferred fault handler answered a poll.
#[derive(Debug, Clone, Copy, PartialEq, Eq, Structural)]
pub enum FaultPoll {
    Pending,
    Resolved,
    Failed,
}

/// The step after polling a deferred fault handler: a failed handler
/// fails the copy with `Fault`, a pending one keeps it pending, a
/// resolved one lets the copy run again.
pub fn after_fault_poll(p: FaultPoll) -> (r: UAccessStep)
    ensures
        r == (match p {
            FaultPoll::Pending => UAccessStep::Pending,
            FaultPoll::Resolved => UAccessStep::Retry,
            FaultPoll::Failed => UAccessStep::Ready(Err(KernelError::Fault)),
        }),
{
    match p {
        FaultPoll::Pending => UAccessStep::Pending,
        FaultPoll::Resolved => UAccessStep::Retry,
        FaultPoll::Failed => UAccessStep::Ready(Err(KernelError::Fault)),
    }
}

/// The step after one copy attempt that ended with `status` and
/// `new_bytes_copied`: success reports the count, a denial fails with
/// `Fault`, a deferral records the progress and retries once the fault
/// handler (installed by the caller) has run.
pub fn after_copy_attempt(status: UAccessResult, new_bytes_copied: usize, bytes_copied: &mut usize) -> (r: UAccessStep)
    ensures
        r == (match status {
            UAccessResult::Complete => UAccessStep::Ready(Ok(new_bytes_copied)),
            UAccessResult::AbortDenied => UAccessStep::Ready(Err(KernelError::Fault)),
            UAccessResult::AbortDeferred => UAccessStep::Retry,
        }),
        *final(bytes_copied) == (if status == UAccessResult::AbortDeferred {
            new_bytes_copied
        } else {
            *old(bytes_copied)
        }),
{
    match status {
        UAccessResult::Complete => UAccessStep::Ready(Ok(new_bytes_copied)),
        UAccessResult::AbortDenied => UAccessStep::Ready(Err(KernelError::Fault)),
        UAccessResult::AbortDeferred => {
            *bytes_copied = new_bytes_copied;
            UAccessStep::Retry
        },
    }
}

/// `dst` with `src[0..n]` written at `at`.
pub open spec fn written_at(dst: Seq<u8>, at: int, src: Seq<u8>, n: int) -> Seq<u8> {
    dst.take(at) + src.take(n) + dst.skip(at + n)
}

fn copy_bytes(dst: &mut Vec<u8>, at: usize, src: &[u8], n: usize)
    requires
        n <= src@.len(),
        at + n <= old(dst)@.len(),
    ensures
        final(dst)@ == written_at(old(dst)@, at as int, src@, n as int),
{
    let ghost d0 = dst@;
    let dlen = dst.len();
    let mut i: usize = 0;
    while i < n
        invariant
            dlen == d0.len(),
            i <= n <= src@.len(),
            at + n <= d0.len(),
            dst@.len() == d0.len(),
            forall|k: int| 0 <= k < at ==> #[trigger] dst@[k] == d0[k],
            forall|k: int| 0 <= k < i ==> #[trigger] dst@[at + k] == src@[k],
            forall|k: int| at + i <= k < d0.len() ==> #[trigger] dst@[k] == d0[k],
        decreases n - i,
    {
        dst.set(at + i, src[i]);
        i = i + 1;
    }
    assert(dst@ =~= written_at(d0, at as int, src@, n as int)) by {
        assert forall|k: int| 0 <= k < d0.len() implies #[trigger] dst@[k] == written_at(d0, at as int, src@, n as int)[k] by {
            if at <= k < at + n {
                assert(dst@[at + (k - at)] == src@[k - at]);
            }
        }
    }
}

/// One copy attempt from user memory: the bytes not yet copied, taken
/// from the start of `user`, land in `dst` after the `bytes_copied`
/// already there; the attempt completes at once with `len` copied.
/// With nothing left to copy it reports `bytes_copied` unchanged.
pub fn do_copy_from_user(user: &[u8], dst: &mut Vec<u8>, len: usize, bytes_copied: usize) -> (r: (
    UAccessResult,
    usize,
    usize,
    usize,
))
    requires
        bytes_copied < len ==> len - bytes_copied <= user@.len() && len <= old(dst)@.len(),
    ensures
        r.0 == UAccessResult::Complete,
        r.1 == 0 && r.2 == 0,
        bytes_copied >= len ==> r.3 == bytes_copied && final(dst)@ == old(dst)@,
        bytes_copied < len ==> r.3 == len && final(dst)@ == written_at(
            old(dst)@,
            bytes_copied as int,
            user@,
            len - bytes_copied,
        ),
{
    let bytes_to_copy = len.saturating_sub(bytes_copied);
    if bytes_to_copy == 0 {
        return (UAccessResult::Complete, 0, 0, bytes_copied);
    }
    copy_bytes(dst, bytes_copied, user, bytes_to_copy);
    (UAccessResult::Complete, 0, 0, len)
}

/// Copy `len` bytes from user memory into `dst` in one attempt.
pub fn try_copy_from_user(user: &[u8], dst: &mut Vec<u8>, len: usize) -> (r: Result<(), KernelError>)
    requires
        len <= user@.len(),
        len <= old(dst)@.len(),
    ensures
        r is Ok,
        final(dst)@ == written_at(old(dst)@, 0, user@, len as int),
{
    let (status, _, _, _) = do_copy_from_user(user, dst, len, 0);
    match status {
        UAccessResult::Complete => Ok(()),
        UAccessResult::AbortDenied => Err(KernelError::Fault),
        UAccessResult::AbortDeferred => Err(KernelError::Fault),
    }
}

/// A copy of `len` bytes from user address `src` to kernel address `dst`.
pub struct X86_64CopyFromUser {
    pub src: u64,
    pub dst: u64,
    pub len: usize,
    pub bytes_copied: usize,
}

impl X86_64CopyFromUser {
    pub fn new(src: u64, dst: u64, len: usize) -> (r: Self)
        ensures
            r == (X86_64CopyFromUser { src, dst, len, bytes_copied: 0 }),
    {
        X86_64CopyFromUser { src, dst, len, bytes_copied: 0 }
    }

    /// One copy attempt and the step it leads to; `user` is the memory at
    /// `src`, `kernel` the buffer at `dst`.
    pub fn poll_copy(&mut self, user: &[u8], kernel: &mut Vec<u8>) -> (r: UAccessStep)
        requires
            old(self).bytes_copied < old(self).len ==> old(self).len - old(self).bytes_copied <= user@.len()
                && old(self).len <= old(kernel)@.len(),
        ensures
            *final(self) == *old(self),
            old(self).bytes_copied >= old(self).len ==> r == UAccessStep::Ready(Ok(old(self).bytes_copied))
                && final(kernel)@ == old(kernel)@,
            old(self).bytes_copied < old(self).len ==> r == UAccessStep::Ready(Ok(old(self).len)) && final(kernel)@
                == written_at(
                old(kernel)@,
                old(self).bytes_copied as int,
                user@,
                old(self).len - old(self).bytes_copied,
            ),
    {
        let (status, _, _, n) = do_copy_from_user(user, kernel, self.len, self.bytes_copied);
        after_copy_attempt(status, n, &mut self.bytes_copied)
    }
}

/// A copy of `len` bytes from kernel address `src` to user address `dst`.
pub struct X86_64CopyToUser {
    pub src: u64,
    pub dst: u64,
    pub len: usize,
    pub bytes_copied: usize,
}

impl X86_64CopyToUser {
    pub fn new(src: u64, dst: u64, len: usize) -> (r: Self)
        ensures
            r == (X86_64CopyToUser { src, dst, len, bytes_copied: 0 }),
    {
        X86_64CopyToUser { src, dst, len, bytes_copied: 0 }
    }

    /// One copy attempt: the kernel bytes from `bytes_copied` on are
    /// written to the start of user memory, and the copy completes with
    /// `len` copied.
    pub fn poll_copy(&mut self, kernel: &[u8], user: &mut Vec<u8>) -> (r: UAccessStep)
        requires
            old(self).bytes_copied < old(self).len ==> old(self).len <= kernel@.len() && old(self).len
                - old(self).bytes_copied <= old(user)@.len(),
        ensures
            *final(self) == *old(self),
            old(self).bytes_copied >= old(self).len ==> r == UAccessStep::Ready(Ok(old(self).bytes_copied))
                && final(user)@ == old(user)@,
            old(self).bytes_copied < old(self).len ==> r == UAccessStep::Ready(Ok(old(self).len)) && final(user)@
                == written_at(
                old(user)@,
                0,
                kernel@.skip(old(self).bytes_copied as int),
                old(self).len - old(self).bytes_copied,
            ),
    {
        let bytes_to_copy = self.len.saturating_sub(self.bytes_copied);
        if bytes_to_copy == 0 {
            return after_copy_attempt(UAccessResult::Complete, self.bytes_copied, &mut self.bytes_copied);
        }
        let ghost k = kernel@;
        let mut tail: Vec<u8> = Vec::new();
        let mut i: usize = self.bytes_copied;
        while i < self.len
            invariant
                self.bytes_copied <= i <= self.len <= kernel@.len(),
                k == kernel@,
                tail@ == k.subrange(self.bytes_copied as int, i as int),
            decreases self.len - i,
        {
            tail.push(kernel[i]);
            i = i + 1;
            assert(tail@ =~= k.subrange(self.bytes_copied as int, i as int));
        }
        copy_bytes(user, 0, tail.as_slice(), bytes_to_copy);
        assert(tail@.take(bytes_to_copy as int) =~= k.skip(self.bytes_copied as int).take(bytes_to_copy as int));
        after_copy_attempt(UAccessResult::Complete, self.len, &mut self.bytes_copied)
    }
}

/// Length of the string in `s` from `from`: the distance to the first
/// NUL byte within `n` bytes, or `n` when there is none.
pub open spec fn is_strn_len(s: Seq<u8>, from: int, n: int, count: int) -> bool {
    &&& 0 <= count <= n
    &&& forall|k: int| 0 <= k < count ==> #[trigger] s[from + k] != 0
    &&& count < n ==> s[from + count] == 0
}

/// A copy of a NUL-terminated string of at most `len` bytes from user
/// address `src` to kernel address `dst`.
pub struct X86_64CopyStrnFromUser {
    pub src: u64,
    pub dst: u64,
    pub len: usize,
    pub bytes_copied: usize,
}

impl X86_64CopyStrnFromUser {
    pub fn new(src: u64, dst: u64, len: usize) -> (r: Self)
        ensures
            r == (X86_64CopyStrnFromUser { src, dst, len, bytes_copied: 0 }),
    {
        X86_64CopyStrnFromUser { src, dst, len, bytes_copied: 0 }
    }

    /// One copy attempt: the string that starts `bytes_copied` bytes into
    /// user memory is measured up to its NUL (or the `len` limit), that
    /// many bytes from the start of user memory are copied after the
    /// `bytes_copied` already in `kernel`, a NUL is written after them,
    /// and the copy completes with the new total.
    pub fn poll_copy(&mut self, user: &[u8], kernel: &mut Vec<u8>) -> (r: UAccessStep)
        requires
            old(self).bytes_copied < old(self).len ==> old(self).len <= user@.len() && old(self).len
                < old(kernel)@.len(),
        ensures
            *final(self) == *old(self),
            old(self).bytes_copied >= old(self).len ==> r == UAccessStep::Ready(Ok(old(self).bytes_copied))
                && final(kernel)@ == old(kernel)@,
            old(self).bytes_copied < old(self).len ==> exists|count: int|
                {
                    &&& is_strn_len(user@, old(self).bytes_copied as int, old(self).len - old(self).bytes_copied, count)
                    &&& r == UAccessStep::Ready(Ok((old(self).bytes_copied + count) as usize))
                    &&& final(kernel)@ == written_at(old(kernel)@, old(self).bytes_copied as int, user@, count).update(
                        old(self).bytes_copied + count,
                        0u8,
                    )
                },
    {
        let bytes_copied = self.bytes_copied;
        let bytes_to_copy = self.len.saturating_sub(bytes_copied);
        if bytes_to_copy == 0 {
            return after_copy_attempt(UAccessResult::Complete, bytes_copied, &mut self.bytes_copied);
        }
        let mut count: usize = 0;
        while count < bytes_to_copy
            invariant_except_break
                bytes_copied + bytes_to_copy == self.len <= user@.len(),
                count <= bytes_to_copy,
                forall|k: int| 0 <= k < count ==> #[trigger] user@[bytes_copied + k] != 0,
            ensures
                count <= bytes_to_copy,
                forall|k: int| 0 <= k < count ==> #[trigger] user@[bytes_copied + k] != 0,
                count < bytes_to_copy ==> user@[bytes_copied + count] == 0,
            decreases bytes_to_copy - count,
        {
            if user[bytes_copied + count] == 0 {
                break;
            }
            count = count + 1;
        }
        copy_bytes(kernel, bytes_copied, user, count);
        kernel.set(bytes_copied + count, 0);
        let r = after_copy_attempt(UAccessResult::Complete, bytes_copied + count, &mut self.bytes_copied);
        assert(is_strn_len(user@, bytes_copied as int, bytes_to_copy as int, count as int));
        r
    }
}

} // verus!

//! RISC-V SBI calls: the requests the kernel makes and the decisions it takes on the
//! replies. The `ecall` itself is made by the caller.

use vstd::prelude::*;

use crate::mm::addr::PhysAddr;

verus! {

/// SBI return value.
#[derive(Debug, Clone, Copy, PartialEq, Eq, Structural)]
pub struct SbiRet {
    /// Error code
    pub error: isize,
    /// Return value
    pub value: usize,
}

impl SbiRet {
    pub fn is_ok(&self) -> (r: bool)
        ensures
            r == (self.error == 0),
    {
        self.error == 0
    }

    pub fn is_err(&self) -> (r: bool)
        ensures
            r == (self.error != 0),
    {
        self.error != 0
    }
}

/// An SBI call to make: extension id (a7), function id (a6) and arguments (a0-a5).
#[derive(Debug, Clone, Copy)]
pub struct SbiCall {
    pub eid: usize,
    pub fid: usize,
    pub args: [usize; 6],
}

/// The call `eid`/`fid` with arguments `a0`, `a1`, `a2`, the others zero.
pub open spec fn call3(eid: usize, fid: usize, a0: usize, a1: usize, a2: usize) -> (usize, usize, Seq<usize>) {
    (eid, fid, seq![a0, a1, a2, 0, 0, 0])
}

impl SbiCall {
    /// The call as extension id, function id and argument registers.
    pub open spec fn spec_parts(&self) -> (usize, usize, Seq<usize>) {
        (self.eid, self.fid, self.args@)
    }
}

/// A call with no argument.
pub fn sbi_call_0(eid: usize, fid: usize) -> (r: SbiCall)
    ensures
        r.spec_parts() == call3(eid, fid, 0, 0, 0),
{
    let r = SbiCall { eid, fid, args: [0, 0, 0, 0, 0, 0] };
    assert(r.args@ =~= seq![0usize, 0, 0, 0, 0, 0]);
    r
}

/// A call with one argument.
pub fn sbi_call_1(eid: usize, fid: usize, a0: usize) -> (r: SbiCall)
    ensures
        r.spec_parts() == call3(eid, fid, a0, 0, 0),
{
    let r = SbiCall { eid, fid, args: [a0, 0, 0, 0, 0, 0] };
    assert(r.args@ =~= seq![a0, 0, 0, 0, 0, 0]);
    r
}

/// A call with two arguments.
pub fn sbi_call_2(eid: usize, fid: usize, a0: usize, a1: usize) -> (r: SbiCall)
    ensures
        r.spec_parts() == call3(eid, fid, a0, a1, 0),
{
    let r = SbiCall { eid, fid, args: [a0, a1, 0, 0, 0, 0] };
    assert(r.args@ =~= seq![a0, a1, 0, 0, 0, 0]);
    r
}

/// A call with three arguments.
pub fn sbi_call_3(eid: usize, fid: usize, a0: usize, a1: usize, a2: usize) -> (r: SbiCall)
    ensures
        r.spec_parts() == call3(eid, fid, a0, a1, a2),
{
    let r = SbiCall { eid, fid, args: [a0, a1, a2, 0, 0, 0] };
    assert(r.args@ =~= seq![a0, a1, a2, 0, 0, 0]);
    r
}

/// Debug console extension.
pub const EID_DBCN: usize = 0x4442434E;

/// System reset extension.
pub const EID_SRST: usize = 0x53525354;

/// System reset type: shutdown.
pub const RESET_SHUTDOWN: usize = 0;

/// System shutdown reason: none.
pub const REASON_NONE: usize = 0;

/// System shutdown reason: failure.
pub const REASON_FAILURE: usize = 1;

/// DBCN write: `num_bytes` bytes from physical address `phys_addr` (non-blocking; the
/// reply's value is the number of bytes written).
pub fn console_write(num_bytes: usize, phys_addr: PhysAddr) -> (r: SbiCall)
    ensures
        r.spec_parts() == call3(EID_DBCN, 0, num_bytes, phys_addr.0, 0),
{
    sbi_call_3(EID_DBCN, 0, num_bytes, phys_addr.as_usize(), 0)
}

/// DBCN write of a single byte (blocking).
pub fn console_write_byte(byte: u8) -> (r: SbiCall)
    ensures
        r.spec_parts() == call3(EID_DBCN, 2, byte as usize, 0, 0),
{
    sbi_call_1(EID_DBCN, 2, byte as usize)
}

/// Prints one character.
pub fn put_char(c: u8) -> (r: SbiCall)
    ensures
        r.spec_parts() == call3(EID_DBCN, 2, c as usize, 0, 0),
{
    console_write_byte(c)
}

/// System shutdown, with the failure reason when `failure` is set.
pub fn shutdown(failure: bool) -> (r: SbiCall)
    ensures
        r.spec_parts() == call3(EID_SRST, 0, RESET_SHUTDOWN, if failure { REASON_FAILURE } else { REASON_NONE }, 0),
{
    let reason = if failure { REASON_FAILURE } else { REASON_NONE };
    sbi_call_2(EID_SRST, 0, RESET_SHUTDOWN, reason)
}

/// What printing a string does next.
#[derive(Debug, Clone, Copy)]
pub enum PutStrAction {
    /// Make this console write call.
    Write(SbiCall),
    /// Done.
    Done,
}

/// Printing a string of `len` bytes at physical address `pa`: `offset` bytes are out.
#[derive(Debug, Clone, Copy, PartialEq, Eq, Structural)]
pub struct PutStr {
    pub pa: usize,
    pub len: usize,
    pub offset: usize,
}

impl PutStr {
    /// Starts printing `len` bytes at physical address `pa`.
    pub fn new(pa: usize, len: usize) -> (r: Self)
        ensures
            r == (PutStr { pa, len, offset: 0 }),
    {
        PutStr { pa, len, offset: 0 }
    }

    /// The next step while nothing has been answered yet: a write of the remaining bytes,
    /// or done when nothing remains.
    pub fn next_call(&self) -> (r: PutStrAction)
        requires
            self.pa + self.offset <= usize::MAX,
        ensures
            self.offset < self.len ==> (r matches PutStrAction::Write(c) && c.spec_parts() == call3(
                EID_DBCN,
                0,
                (self.len - self.offset) as usize,
                (self.pa + self.offset) as usize,
                0,
            )),
            self.offset >= self.len ==> r is Done,
    {
        if self.offset < self.len {
            PutStrAction::Write(console_write(self.len - self.offset, PhysAddr::new(self.pa + self.offset)))
        } else {
            PutStrAction::Done
        }
    }

    /// Takes the reply to a console write: on an error or when nothing was written, the
    /// rest goes out byte by byte; otherwise the offset moves on by the bytes written.
    pub fn on_reply(&mut self, ret: SbiRet) -> (r: Option<usize>)
        requires
            old(self).offset + ret.value <= usize::MAX,
        ensures
            (ret.error != 0 || ret.value == 0) ==> r == Some(old(self).offset) && *final(self) == *old(self),
            !(ret.error != 0 || ret.value == 0) ==> r is None && *final(self) == (PutStr {
                offset: (old(self).offset + ret.value) as usize,
                ..*old(self)
            }),
    {
        if ret.is_err() || ret.value == 0 {
            return Some(self.offset);
        }
        self.offset = self.offset + ret.value;
        None
    }
}

/// Every reply either ends the printing or moves the offset forward, so printing ends.
pub proof fn lemma_put_str_progress(offset: usize, ret: SbiRet)
    requires
        offset + ret.value <= usize::MAX,
    ensures
        (ret.error != 0 || ret.value == 0) || offset + ret.value > offset,
{
}

} // verus!

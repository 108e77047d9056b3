//! Kernel error codes.

use vstd::prelude::*;
use vstd::string::StringExecFns;

verus! {

/// Standard kernel error codes, each with the negative Linux errno of [`errno_of`].
#[derive(Debug, Clone, Copy, PartialEq, Eq, Structural)]
pub enum KErrNo {
    /// Operation not permitted
    EPERM,
    /// No such file or directory
    ENOENT,
    /// No such process
    ESRCH,
    /// Interrupted system call
    EINTR,
    /// I/O error
    EIO,
    /// No such device or address
    ENXIO,
    /// Argument list too long
    E2BIG,
    /// Exec format error
    ENOEXEC,
    /// Bad file number
    EBADF,
    /// Try again
    EAGAIN,
    /// Out of memory
    ENOMEM,
    /// Permission denied
    EACCES,
    /// Bad address
    EFAULT,
    /// Device or resource busy
    EBUSY,
    /// File exists
    EEXIST,
    /// No such device
    ENODEV,
    /// Not a directory
    ENOTDIR,
    /// Is a directory
    EISDIR,
    /// Invalid argument
    EINVAL,
    /// Too many open files
    ENFILE,
    /// No space left on device
    ENOSPC,
    /// Read-only file system
    EROFS,
}

/// The numeric errno of an error code.
pub open spec fn errno_of(no: KErrNo) -> int {
    match no {
        KErrNo::EPERM => -1,
        KErrNo::ENOENT => -2,
        KErrNo::ESRCH => -3,
        KErrNo::EINTR => -4,
        KErrNo::EIO => -5,
        KErrNo::ENXIO => -6,
        KErrNo::E2BIG => -7,
        KErrNo::ENOEXEC => -8,
        KErrNo::EBADF => -9,
        KErrNo::EAGAIN => -11,
        KErrNo::ENOMEM => -12,
        KErrNo::EACCES => -13,
        KErrNo::EFAULT => -14,
        KErrNo::EBUSY => -16,
        KErrNo::EEXIST => -17,
        KErrNo::ENODEV => -19,
        KErrNo::ENOTDIR => -20,
        KErrNo::EISDIR => -21,
        KErrNo::EINVAL => -22,
        KErrNo::ENFILE => -24,
        KErrNo::ENOSPC => -28,
        KErrNo::EROFS => -30,
    }
}

/// The name of an error code, as it is written.
pub open spec fn errno_name(no: KErrNo) -> Seq<char> {
    match no {
        KErrNo::EPERM => "EPERM"@,
        KErrNo::ENOENT => "ENOENT"@,
        KErrNo::ESRCH => "ESRCH"@,
        KErrNo::EINTR => "EINTR"@,
        KErrNo::EIO => "EIO"@,
        KErrNo::ENXIO => "ENXIO"@,
        KErrNo::E2BIG => "E2BIG"@,
        KErrNo::ENOEXEC => "ENOEXEC"@,
        KErrNo::EBADF => "EBADF"@,
        KErrNo::EAGAIN => "EAGAIN"@,
        KErrNo::ENOMEM => "ENOMEM"@,
        KErrNo::EACCES => "EACCES"@,
        KErrNo::EFAULT => "EFAULT"@,
        KErrNo::EBUSY => "EBUSY"@,
        KErrNo::EEXIST => "EEXIST"@,
        KErrNo::ENODEV => "ENODEV"@,
        KErrNo::ENOTDIR => "ENOTDIR"@,
        KErrNo::EISDIR => "EISDIR"@,
        KErrNo::EINVAL => "EINVAL"@,
        KErrNo::ENFILE => "ENFILE"@,
        KErrNo::ENOSPC => "ENOSPC"@,
        KErrNo::EROFS => "EROFS"@,
    }
}

/// ASCII character of a decimal digit.
pub open spec fn digit_char(d: nat) -> char {
    (0x30 + d) as char
}

/// Decimal digits of `n`, most significant first.
pub open spec fn dec_chars(n: nat) -> Seq<char>
    decreases n,
{
    if n < 10 {
        seq![digit_char(n)]
    } else {
        dec_chars(n / 10).push(digit_char(n % 10))
    }
}

/// How an error is shown: `NAME(errno): message`.
pub open spec fn kerr_text(no: KErrNo, msg: Seq<char>) -> Seq<char> {
    errno_name(no) + "(-"@ + dec_chars((-errno_of(no)) as nat) + "): "@ + msg
}

/// Appends one decimal digit.
fn push_digit(d: usize, s: &mut String)
    requires
        d < 10,
    ensures
        final(s)@ == old(s)@.push(digit_char(d as nat)),
{
    let t = match d {
        0 => "0",
        1 => "1",
        2 => "2",
        3 => "3",
        4 => "4",
        5 => "5",
        6 => "6",
        7 => "7",
        8 => "8",
        _ => "9",
    };
    proof {
        reveal_strlit("0");
        reveal_strlit("1");
        reveal_strlit("2");
        reveal_strlit("3");
        reveal_strlit("4");
        reveal_strlit("5");
        reveal_strlit("6");
        reveal_strlit("7");
        reveal_strlit("8");
        reveal_strlit("9");
    }
    assert(t@ =~= seq![digit_char(d as nat)]);
    s.append(t);
}

/// Appends the decimal digits of `v`, as `{}` writes them.
pub fn push_dec(v: usize, s: &mut String)
    ensures
        final(s)@ == old(s)@ + dec_chars(v as nat),
    decreases v,
{
    if v >= 10 {
        push_dec(v / 10, s);
    }
    push_digit(v % 10, s);
    proof {
        if v >= 10 {
            assert(old(s)@ + dec_chars(v as nat) =~= old(s)@ + dec_chars((v / 10) as nat) + seq![digit_char((v % 10) as nat)]);
        } else {
            assert(old(s)@ + dec_chars(v as nat) =~= old(s)@.push(digit_char(v as nat)));
        }
    }
}

impl KErrNo {
    /// The name of the code, such as `ENOMEM`.
    pub fn name(self) -> (r: &'static str)
        ensures
            r@ == errno_name(self),
    {
        match self {
            KErrNo::EPERM => "EPERM",
            KErrNo::ENOENT => "ENOENT",
            KErrNo::ESRCH => "ESRCH",
            KErrNo::EINTR => "EINTR",
            KErrNo::EIO => "EIO",
            KErrNo::ENXIO => "ENXIO",
            KErrNo::E2BIG => "E2BIG",
            KErrNo::ENOEXEC => "ENOEXEC",
            KErrNo::EBADF => "EBADF",
            KErrNo::EAGAIN => "EAGAIN",
            KErrNo::ENOMEM => "ENOMEM",
            KErrNo::EACCES => "EACCES",
            KErrNo::EFAULT => "EFAULT",
            KErrNo::EBUSY => "EBUSY",
            KErrNo::EEXIST => "EEXIST",
            KErrNo::ENODEV => "ENODEV",
            KErrNo::ENOTDIR => "ENOTDIR",
            KErrNo::EISDIR => "EISDIR",
            KErrNo::EINVAL => "EINVAL",
            KErrNo::ENFILE => "ENFILE",
            KErrNo::ENOSPC => "ENOSPC",
            KErrNo::EROFS => "EROFS",
        }
    }

    /// The numeric errno value (negative).
    pub fn as_isize(self) -> (r: isize)
        ensures
            r == errno_of(self),
    {
        match self {
            KErrNo::EPERM => -1,
            KErrNo::ENOENT => -2,
            KErrNo::ESRCH => -3,
            KErrNo::EINTR => -4,
            KErrNo::EIO => -5,
            KErrNo::ENXIO => -6,
            KErrNo::E2BIG => -7,
            KErrNo::ENOEXEC => -8,
            KErrNo::EBADF => -9,
            KErrNo::EAGAIN => -11,
            KErrNo::ENOMEM => -12,
            KErrNo::EACCES => -13,
            KErrNo::EFAULT => -14,
            KErrNo::EBUSY => -16,
            KErrNo::EEXIST => -17,
            KErrNo::ENODEV => -19,
            KErrNo::ENOTDIR => -20,
            KErrNo::EISDIR => -21,
            KErrNo::EINVAL => -22,
            KErrNo::ENFILE => -24,
            KErrNo::ENOSPC => -28,
            KErrNo::EROFS => -30,
        }
    }
}

/// Distinct error codes have distinct, negative errno values.
pub proof fn lemma_errno_injective(a: KErrNo, b: KErrNo)
    ensures
        errno_of(a) < 0,
        errno_of(a) == errno_of(b) ==> a == b,
{
}

/// Each error code's errno is the negated Linux value of the code of that name
/// (`<asm-generic/errno-base.h>`): `EPERM` is -1, `EBUSY` -16, `EEXIST` -17, `EROFS` -30.
pub proof fn lemma_linux_errno(no: KErrNo)
    ensures
        no == KErrNo::EPERM <==> errno_of(no) == -1,
        no == KErrNo::ENOENT <==> errno_of(no) == -2,
        no == KErrNo::ESRCH <==> errno_of(no) == -3,
        no == KErrNo::EINTR <==> errno_of(no) == -4,
        no == KErrNo::EIO <==> errno_of(no) == -5,
        no == KErrNo::ENXIO <==> errno_of(no) == -6,
        no == KErrNo::E2BIG <==> errno_of(no) == -7,
        no == KErrNo::ENOEXEC <==> errno_of(no) == -8,
        no == KErrNo::EBADF <==> errno_of(no) == -9,
        no == KErrNo::EAGAIN <==> errno_of(no) == -11,
        no == KErrNo::ENOMEM <==> errno_of(no) == -12,
        no == KErrNo::EACCES <==> errno_of(no) == -13,
        no == KErrNo::EFAULT <==> errno_of(no) == -14,
        no == KErrNo::EBUSY <==> errno_of(no) == -16,
        no == KErrNo::EEXIST <==> errno_of(no) == -17,
        no == KErrNo::ENODEV <==> errno_of(no) == -19,
        no == KErrNo::ENOTDIR <==> errno_of(no) == -20,
        no == KErrNo::EISDIR <==> errno_of(no) == -21,
        no == KErrNo::EINVAL <==> errno_of(no) == -22,
        no == KErrNo::ENFILE <==> errno_of(no) == -24,
        no == KErrNo::ENOSPC <==> errno_of(no) == -28,
        no == KErrNo::EROFS <==> errno_of(no) == -30,
{
}

/// Kernel error: an error code with a static context message.
#[derive(Debug, Clone, Copy)]
pub struct KErr {
    /// Error code
    pub no: KErrNo,
    /// Context message
    pub msg: &'static str,
}

impl KErr {
    /// Creates a new kernel error.
    pub fn new(no: KErrNo, msg: &'static str) -> (r: Self)
        ensures
            r.no == no,
            r.msg == msg,
    {
        KErr { no, msg }
    }

    /// The error as text, `NAME(errno): message`, such as
    /// `ENOMEM(-12): buddy allocator exhausted`.
    pub fn describe(&self) -> (r: String)
        ensures
            r@ == kerr_text(self.no, self.msg@),
    {
        proof {
            lemma_errno_injective(self.no, self.no);
        }
        let mut s = String::from_str(self.no.name());
        s.append("(-");
        let e = self.no.as_isize();
        push_dec((0 - e) as usize, &mut s);
        s.append("): ");
        s.append(self.msg);
        s
    }

    /// Returns the numeric errno value for syscall returns.
    pub fn errno(&self) -> (r: isize)
        ensures
            r == errno_of(self.no),
    {
        self.no.as_isize()
    }
}

} // verus!

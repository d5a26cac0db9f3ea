use vstd::prelude::*;
use vstd::string::*;

verus! {

/// Error information about the attempted BPF operation: the system's error
/// number and a description that starts with what was attempted.
#[derive(Debug)]
pub struct XDPError {
    code: i32,
    description: String,
}

/// The error number that is reported for `errno`: the kernel's private
/// "not supported" (524) is reported as the standard one (95), every other
/// number as it is.
pub open spec fn reported_errno(errno: i32) -> i32 {
    if errno == 524 {
        95
    } else {
        errno
    }
}

/// The character that stands for the digit `d`.
pub open spec fn digit_char(d: nat) -> char {
    if d == 0 {
        '0'
    } else if d == 1 {
        '1'
    } else if d == 2 {
        '2'
    } else if d == 3 {
        '3'
    } else if d == 4 {
        '4'
    } else if d == 5 {
        '5'
    } else if d == 6 {
        '6'
    } else if d == 7 {
        '7'
    } else if d == 8 {
        '8'
    } else {
        '9'
    }
}

/// `n` in decimal, without leading zeros.
pub open spec fn decimal(n: nat) -> Seq<char>
    decreases n,
{
    if n < 10 {
        seq![digit_char(n)]
    } else {
        decimal(n / 10).push(digit_char(n % 10))
    }
}

/// `n` in decimal, with a minus sign in front where it is negative.
pub open spec fn signed_decimal(n: int) -> Seq<char> {
    if n < 0 {
        seq!['-'] + decimal((-n) as nat)
    } else {
        decimal(n as nat)
    }
}

/// Calls `errno::errno` and hands back the number in it. Nothing is claimed
/// of the number: it is whatever the thread's last failed call left behind.
#[verifier::external_body]
fn errno_now() -> i32 {
    errno::errno().0
}

/// Calls `errno::set_errno` with `code`. It returns nothing, and nothing is
/// claimed about what a later read finds.
#[verifier::external_body]
fn errno_store(code: i32) {
    errno::set_errno(errno::Errno(code))
}

/// Formats `errno::Errno(code)` with its `Display`, which asks the system for
/// the message of that number. Nothing is claimed of the text: it is the
/// system's, in the system's language.
#[verifier::external_body]
fn errno_text(code: i32) -> String {
    format!("{}", errno::Errno(code))
}

/// Calls `ToString::to_string` on an integer: the number in decimal, with a
/// minus sign in front where it is negative.
#[verifier::external_body]
pub(crate) fn decimal_string(n: i128) -> (s: String)
    ensures
        s@ == signed_decimal(n as int),
{
    n.to_string()
}

/// The thread's current error number.
pub fn get_errno() -> i32 {
    errno_now()
}

/// Clears the thread's error number, so that a number found after the next
/// kernel call was left by that call.
pub fn reset_errno() {
    errno_store(0)
}

impl XDPError {
    /// The number the error carries.
    pub closed spec fn spec_code(&self) -> i32 {
        self.code
    }

    /// The description the error carries.
    pub closed spec fn spec_description(&self) -> Seq<char> {
        self.description@
    }

    /// True if the description starts with `msg`, a colon and a space. What
    /// comes behind them is not said here.
    pub open spec fn tells(&self, msg: Seq<char>) -> bool {
        (msg + seq![':', ' ']).is_prefix_of(self.spec_description())
    }

    /// True if the description is `msg`, a colon and a space, and then `text`.
    pub open spec fn tells_with(&self, msg: Seq<char>, text: Seq<char>) -> bool {
        self.spec_description() == msg + seq![':', ' '] + text
    }

    /// An error about `err_msg` with the error number that the thread holds
    /// now, reported as `reported_errno` says.
    pub fn new(err_msg: &str) -> (e: Self)
        ensures
            e.tells(err_msg@),
            e.spec_code() != 524,
    {
        let errno = errno_now();
        XDPError::with_errno(err_msg, errno)
    }

    /// An error about `err_msg` for the error number `errno`. The number is
    /// reported as `reported_errno` says. The description is made by
    /// `with_text` from the system's text for the number that is reported;
    /// of that text the contract says nothing, as it is the system's own.
    pub fn with_errno(err_msg: &str, errno: i32) -> (e: Self)
        ensures
            e.spec_code() == reported_errno(errno),
            e.tells(err_msg@),
    {
        let code = if errno == 524 {
            95
        } else {
            errno
        };
        let text = errno_text(code);
        XDPError::with_text(err_msg, code, text.as_str())
    }

    /// The error with the number `code`, as it is, whose description is
    /// `err_msg`, a colon and a space, and then `text`.
    pub fn with_text(err_msg: &str, code: i32, text: &str) -> (e: Self)
        ensures
            e.spec_code() == code,
            e.tells_with(err_msg@, text@),
            e.tells(err_msg@),
    {
        let mut description = String::from_str(err_msg);
        description.append(": ");
        proof {
            reveal_strlit(": ");
            assert(description@ =~= err_msg@ + seq![':', ' ']);
        }
        let ghost head = description@;
        description.append(text);
        assert(head =~= description@.subrange(0, head.len() as int));
        XDPError { code, description }
    }

    /// An error about `err_msg` for the error number `errno`, which is also
    /// left in the thread's error number, where a caller that looks there
    /// finds it.
    pub fn raise(errno: i32, err_msg: &str) -> (e: Self)
        ensures
            e.spec_code() == reported_errno(errno),
            e.tells(err_msg@),
    {
        let e = XDPError::with_errno(err_msg, errno);
        errno_store(errno);
        e
    }

    #[verifier::when_used_as_spec(spec_code)]
    pub fn code(&self) -> (r: i32)
        ensures
            r == self.spec_code(),
    {
        self.code
    }

    pub fn description(&self) -> (r: &str)
        ensures
            r@ == self.spec_description(),
    {
        self.description.as_str()
    }

    /// The description, then the error number in square brackets.
    pub fn to_string(&self) -> (s: String)
        ensures
            s@ == self.spec_description() + " [errno: "@ + signed_decimal(self.spec_code() as int)
                + "]"@,
    {
        let number = decimal_string(self.code as i128);
        let mut s = String::from_str(self.description.as_str());
        s.append(" [errno: ");
        s.append(number.as_str());
        s.append("]");
        s
    }
}

} // verus!

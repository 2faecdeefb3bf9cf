//! Everything that can go wrong in a launch.

use vstd::prelude::*;

verus! {

/// A system call of the launch, as it is named when it fails.
#[derive(Clone, Copy, Debug, PartialEq, Eq, Structural)]
pub enum Operation {
    InspectJob,
    DuplicateStdio,
    InitializeAttributes,
    SetHandleList,
    SetParent,
    OpenCallerToken,
    CreateDaemon,
    QueryPeer,
    OpenParent,
    ConfirmPeer,
    ConnectParentPipe,
    WaitForRelease,
    CreateDacl,
    CreatePipe,
    AcceptParent,
    QueryOwner,
    ReadOwner,
    FormatOwner,
}

/// Why a launch, or a part of it, did not succeed.
#[derive(Clone, Copy, Debug, PartialEq, Eq, Structural)]
pub enum Failure {
    /// A system call failed with an error code, and what it was made for
    /// where that is reported.
    System { operation: Option<Operation>, code: i32 },
    /// An operation of the program failed without a code of the system.
    /// `info` numbers the error, whose message is the one to report.
    Io { info: isize },
    /// A component call failed with a result code. `info` numbers the error
    /// object that came back with it, whose message is the one to report.
    Com { code: i32, info: isize },
    NulInCommandLine,
    CommandLineTooLong,
    NulInParameter,
    DaemonDidNotExit,
    InvalidAttributeSize,
    InvalidTokenSize,
    PeerMismatch,
    ConnectionTimedOut,
    MissingPipe,
    UnexpectedArguments,
    InvalidPipe,
    NoProcessClass,
    NoCreateParameters,
    NoStartupClass,
    NoProcessResult,
    /// The management service refused to create the process.
    CreationRefused { status: u32 },
    /// The management service gave no answer.
    RequestTimedOut { silence: Silence },
}

/// Why no answer came.
#[derive(Clone, Copy, Debug, PartialEq, Eq, Structural)]
pub enum Silence {
    TimedOut,
    WorkerExited,
}

impl Operation {
    /// The words that report a failure of this call.
    pub open spec fn words(self) -> Seq<char> {
        match self {
            Operation::InspectJob => "inspect daemon Job"@,
            Operation::DuplicateStdio => "duplicate daemon stdio into parent"@,
            Operation::InitializeAttributes => "initialize daemon startup attributes"@,
            Operation::SetHandleList => "set daemon handle allowlist"@,
            Operation::SetParent => "set independent daemon parent"@,
            Operation::OpenCallerToken => "open daemon caller token"@,
            Operation::CreateDaemon => "CreateProcessAsUserW daemon"@,
            Operation::QueryPeer => "query launch parent pipe peer"@,
            Operation::OpenParent => "open connected launch parent"@,
            Operation::ConfirmPeer =>
                "launch parent disconnected before process identity was pinned"@,
            Operation::ConnectParentPipe => "connect launch parent pipe"@,
            Operation::WaitForRelease => "wait for launch parent release"@,
            Operation::CreateDacl => "create pipe DACL"@,
            Operation::CreatePipe => "create private launch parent pipe"@,
            Operation::AcceptParent => "connect private launch parent pipe"@,
            Operation::QueryOwner => "query pipe owner"@,
            Operation::ReadOwner => "read pipe owner"@,
            Operation::FormatOwner => "format pipe owner"@,
        }
    }

    pub fn text(self) -> (text: &'static str)
        ensures
            text@ == self.words(),
    {
        match self {
            Operation::InspectJob => "inspect daemon Job",
            Operation::DuplicateStdio => "duplicate daemon stdio into parent",
            Operation::InitializeAttributes => "initialize daemon startup attributes",
            Operation::SetHandleList => "set daemon handle allowlist",
            Operation::SetParent => "set independent daemon parent",
            Operation::OpenCallerToken => "open daemon caller token",
            Operation::CreateDaemon => "CreateProcessAsUserW daemon",
            Operation::QueryPeer => "query launch parent pipe peer",
            Operation::OpenParent => "open connected launch parent",
            Operation::ConfirmPeer =>
                "launch parent disconnected before process identity was pinned",
            Operation::ConnectParentPipe => "connect launch parent pipe",
            Operation::WaitForRelease => "wait for launch parent release",
            Operation::CreateDacl => "create pipe DACL",
            Operation::CreatePipe => "create private launch parent pipe",
            Operation::AcceptParent => "connect private launch parent pipe",
            Operation::QueryOwner => "query pipe owner",
            Operation::ReadOwner => "read pipe owner",
            Operation::FormatOwner => "format pipe owner",
        }
    }
}

pub open spec fn digit(value: nat) -> char {
    if value == 0 {
        '0'
    } else if value == 1 {
        '1'
    } else if value == 2 {
        '2'
    } else if value == 3 {
        '3'
    } else if value == 4 {
        '4'
    } else if value == 5 {
        '5'
    } else if value == 6 {
        '6'
    } else if value == 7 {
        '7'
    } else if value == 8 {
        '8'
    } else {
        '9'
    }
}

/// A number in decimal, without leading zeros.
pub open spec fn decimal(number: nat) -> Seq<char>
    decreases number,
{
    if number < 10 {
        seq![digit(number)]
    } else {
        decimal(number / 10).push(digit(number % 10))
    }
}

fn digit_text(value: u32) -> (text: &'static str)
    requires
        value < 10,
    ensures
        text@ == seq![digit(value as nat)],
{
    proof {
        reveal_strlit("0");
        reveal_strlit("1");
        reveal_strlit("2");
        reveal_strlit("3");
        reveal_strlit("4");
        reveal_strlit("5");
        reveal_strlit("6");
        reveal_strlit("7");
        reveal_strlit("8");
        reveal_strlit("9");
    }
    match value {
        0 => "0",
        1 => "1",
        2 => "2",
        3 => "3",
        4 => "4",
        5 => "5",
        6 => "6",
        7 => "7",
        8 => "8",
        _ => "9",
    }
}

fn append_decimal(text: &mut String, number: u32)
    ensures
        final(text)@ == old(text)@ + decimal(number as nat),
    decreases number,
{
    if number >= 10 {
        append_decimal(text, number / 10);
    }
    text.append(digit_text(number % 10));
    proof {
        assert(text@ =~= old(text)@ + decimal(number as nat));
    }
}

impl Failure {
    /// The words that report this failure, where they do not depend on the
    /// system.
    pub open spec fn words(self) -> Option<Seq<char>> {
        match self {
            Failure::System { operation: Some(operation), .. } => Some(operation.words()),
            Failure::System { operation: None, .. } => None,
            Failure::Io { .. } => None,
            Failure::Com { .. } => None,
            Failure::NulInCommandLine => Some("NUL in Windows command line"@),
            Failure::CommandLineTooLong => Some(
                "Windows command line exceeds 32767 UTF-16 units"@,
            ),
            Failure::NulInParameter => Some("NUL in Windows launch parameter"@),
            Failure::DaemonDidNotExit => Some("daemon launch process did not exit"@),
            Failure::InvalidAttributeSize => Some("invalid startup attribute size"@),
            Failure::InvalidTokenSize => Some("invalid pipe owner token size"@),
            Failure::PeerMismatch => Some("WMI launch parent and pipe peer identities differ"@),
            Failure::ConnectionTimedOut => Some("launch parent connection timed out"@),
            Failure::MissingPipe => Some("missing launch parent pipe"@),
            Failure::UnexpectedArguments => Some("unexpected launch parent arguments"@),
            Failure::InvalidPipe => Some("invalid launch parent pipe"@),
            Failure::NoProcessClass => Some("WMI returned no process class"@),
            Failure::NoCreateParameters => Some("WMI returned no Create parameters"@),
            Failure::NoStartupClass => Some("WMI returned no startup class"@),
            Failure::NoProcessResult => Some("WMI returned no process result"@),
            Failure::CreationRefused { status } => Some(
                "WMI process creation failed with status "@ + decimal(status as nat),
            ),
            Failure::RequestTimedOut { .. } => Some(
                "WMI launch parent request timed out or worker exited"@,
            ),
        }
    }

    /// The text that reports this failure.
    pub fn message(self) -> (text: Option<String>)
        ensures
            text is Some <==> self.words() is Some,
            text is Some ==> text->Some_0@ == self.words()->Some_0,
    {
        let fixed = match self {
            Failure::System { operation: Some(operation), code: _ } => operation.text(),
            Failure::System { operation: None, code: _ } => {
                return None;
            },
            Failure::Io { info: _ } => {
                return None;
            },
            Failure::Com { code: _, info: _ } => {
                return None;
            },
            Failure::NulInCommandLine => "NUL in Windows command line",
            Failure::CommandLineTooLong => "Windows command line exceeds 32767 UTF-16 units",
            Failure::NulInParameter => "NUL in Windows launch parameter",
            Failure::DaemonDidNotExit => "daemon launch process did not exit",
            Failure::InvalidAttributeSize => "invalid startup attribute size",
            Failure::InvalidTokenSize => "invalid pipe owner token size",
            Failure::PeerMismatch => "WMI launch parent and pipe peer identities differ",
            Failure::ConnectionTimedOut => "launch parent connection timed out",
            Failure::MissingPipe => "missing launch parent pipe",
            Failure::UnexpectedArguments => "unexpected launch parent arguments",
            Failure::InvalidPipe => "invalid launch parent pipe",
            Failure::NoProcessClass => "WMI returned no process class",
            Failure::NoCreateParameters => "WMI returned no Create parameters",
            Failure::NoStartupClass => "WMI returned no startup class",
            Failure::NoProcessResult => "WMI returned no process result",
            Failure::CreationRefused { status } => {
                let mut text = "WMI process creation failed with status ".to_owned();
                append_decimal(&mut text, status);
                return Some(text);
            },
            Failure::RequestTimedOut { silence: _ } =>
                "WMI launch parent request timed out or worker exited",
        };
        Some(fixed.to_owned())
    }
}

/// A number is written digit by digit: one below ten as its digit, and a
/// larger one as its tenth part with the digit of the remainder behind it.
pub proof fn decimal_is_positional(number: nat, remainder: nat)
    requires
        remainder < 10,
    ensures
        decimal(remainder).len() == 1,
        decimal(remainder)[0] as int == '0' as int + remainder,
        number > 0 ==> decimal(10 * number + remainder) == decimal(number) + decimal(remainder),
{
    if number > 0 {
        let all = 10 * number + remainder;
        assert(all / 10 == number && all % 10 == remainder);
        assert(decimal(all) =~= decimal(number) + decimal(remainder));
    }
}

/// Every system call reports its failure in its own words.
pub proof fn operations_are_named()
    ensures
        Operation::InspectJob.words() == "inspect daemon Job"@,
        Operation::DuplicateStdio.words() == "duplicate daemon stdio into parent"@,
        Operation::InitializeAttributes.words() == "initialize daemon startup attributes"@,
        Operation::SetHandleList.words() == "set daemon handle allowlist"@,
        Operation::SetParent.words() == "set independent daemon parent"@,
        Operation::OpenCallerToken.words() == "open daemon caller token"@,
        Operation::CreateDaemon.words() == "CreateProcessAsUserW daemon"@,
        Operation::QueryPeer.words() == "query launch parent pipe peer"@,
        Operation::OpenParent.words() == "open connected launch parent"@,
        Operation::ConfirmPeer.words()
            == "launch parent disconnected before process identity was pinned"@,
        Operation::ConnectParentPipe.words() == "connect launch parent pipe"@,
        Operation::WaitForRelease.words() == "wait for launch parent release"@,
        Operation::CreateDacl.words() == "create pipe DACL"@,
        Operation::CreatePipe.words() == "create private launch parent pipe"@,
        Operation::AcceptParent.words() == "connect private launch parent pipe"@,
        Operation::QueryOwner.words() == "query pipe owner"@,
        Operation::ReadOwner.words() == "read pipe owner"@,
        Operation::FormatOwner.words() == "format pipe owner"@,
{
}

/// A failure of the system is reported by the words of its call where it has
/// some, a refused creation with its status in decimal, and every other
/// failure of the launch in its own words. Errors that carry their own message
/// have no words here.
pub proof fn failures_are_reported(
    operation: Operation,
    code: i32,
    info: isize,
    status: u32,
    silence: Silence,
)
    ensures
        (Failure::System { operation: Some(operation), code }).words() == Some(operation.words()),
        (Failure::System { operation: None, code }).words() is None,
        (Failure::Io { info }).words() is None,
        (Failure::Com { code, info }).words() is None,
        (Failure::CreationRefused { status }).words() == Some(
            "WMI process creation failed with status "@ + decimal(status as nat),
        ),
        (Failure::RequestTimedOut { silence }).words() == Some(
            "WMI launch parent request timed out or worker exited"@,
        ),
        Failure::NulInCommandLine.words() == Some("NUL in Windows command line"@),
        Failure::CommandLineTooLong.words() == Some(
            "Windows command line exceeds 32767 UTF-16 units"@,
        ),
        Failure::NulInParameter.words() == Some("NUL in Windows launch parameter"@),
        Failure::DaemonDidNotExit.words() == Some("daemon launch process did not exit"@),
        Failure::InvalidAttributeSize.words() == Some("invalid startup attribute size"@),
        Failure::InvalidTokenSize.words() == Some("invalid pipe owner token size"@),
        Failure::PeerMismatch.words() == Some("WMI launch parent and pipe peer identities differ"@),
        Failure::ConnectionTimedOut.words() == Some("launch parent connection timed out"@),
        Failure::MissingPipe.words() == Some("missing launch parent pipe"@),
        Failure::UnexpectedArguments.words() == Some("unexpected launch parent arguments"@),
        Failure::InvalidPipe.words() == Some("invalid launch parent pipe"@),
        Failure::NoProcessClass.words() == Some("WMI returned no process class"@),
        Failure::NoCreateParameters.words() == Some("WMI returned no Create parameters"@),
        Failure::NoStartupClass.words() == Some("WMI returned no startup class"@),
        Failure::NoProcessResult.words() == Some("WMI returned no process result"@),
{
}

} // verus!

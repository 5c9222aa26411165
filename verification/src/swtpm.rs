//! Commands to a software TPM, over its control and its data socket.
//!
//! The control socket is used once, to hand over one end of the data socket
//! and to start the TPM. Commands and responses then go over the data socket
//! as streams of bytes.

use crate::bytes::{be_bytes, be_value, lemma_bytes_of_len, store, u32_at, u32_bytes, ByteOrder};
use crate::error::ErrorKind;
use crate::text::{hex_digits, push_hex};
use crate::tpm::{
    failure_response, is_framed, law_failure_response_is_a_message, size_of, TPM_BUFSIZE,
    TPM_HEADER_SIZE, TPM_RC_FAILURE_RESPONSE,
};
use vstd::prelude::*;
use vstd::slice::slice_to_vec;
use vstd::string::*;

verus! {

/// The control command that starts the TPM.
pub const SWTPM_CMD_INIT: u32 = 2;

/// The control command that hands over the data socket.
pub const SWTPM_CMD_SET_DATAFD: u32 = 0x10;

/// The result of a control command that was carried out.
pub const SWTPM_SUCCESS: u32 = 0;

/// Why a software TPM could not be set up.
#[derive(Clone, Copy, Debug, PartialEq, Eq, Structural)]
pub enum ControlError {
    /// The system reported an error, which is to be passed on.
    Os,
    /// The command that hands over the data socket was sent in part only.
    ShortWrite,
    /// A control command ended with this result.
    CommandFailed(u32),
}

impl ControlError {
    /// The kind of this error; that of a system error is the system's.
    pub fn kind(&self) -> (kind: Option<ErrorKind>)
        ensures
            kind == (match *self {
                ControlError::Os => None::<ErrorKind>,
                ControlError::ShortWrite => Some(ErrorKind::WriteZero),
                ControlError::CommandFailed(_) => Some(ErrorKind::Other),
            }),
    {
        match self {
            ControlError::Os => None,
            ControlError::ShortWrite => Some(ErrorKind::WriteZero),
            ControlError::CommandFailed(_) => Some(ErrorKind::Other),
        }
    }

    /// What this error says; the text of a system error is the system's.
    pub fn message(&self) -> (text: Option<String>)
        ensures
            match *self {
                ControlError::Os => text is None,
                ControlError::ShortWrite => text matches Some(t) && t@
                    == "short write sending swtpm SET_DATAFD"@,
                ControlError::CommandFailed(result) => text matches Some(t) && t@
                    == "swtpm control command failed with result 0x"@ + hex_digits(result as nat),
            },
    {
        match self {
            ControlError::Os => None,
            ControlError::ShortWrite => Some("short write sending swtpm SET_DATAFD".to_owned()),
            ControlError::CommandFailed(result) => {
                let mut text = "swtpm control command failed with result 0x".to_owned();
                push_hex(&mut text, *result);
                Some(text)
            },
        }
    }
}

/// The request that goes with one end of the data socket.
pub open spec fn set_datafd_request() -> Seq<u8> {
    be_bytes(SWTPM_CMD_SET_DATAFD as nat, 4)
}

/// The request that starts the TPM, with no flags.
pub open spec fn init_request() -> Seq<u8> {
    be_bytes(SWTPM_CMD_INIT as nat, 4) + be_bytes(0, 4)
}

/// Where the setting up stands.
#[derive(Clone, Copy, Debug, PartialEq, Eq, Structural)]
pub enum Setup {
    /// Before its first step.
    Starting,
    /// The data socket is being handed over.
    SendingDataFd,
    /// The result of handing over the data socket is awaited.
    AwaitingDataFd,
    /// The request to start is being sent.
    SendingInit,
    /// The result of starting is awaited.
    AwaitingInit,
    /// The TPM takes commands.
    Ready,
    /// The TPM could not be set up.
    Failed,
}

/// What the outside has to say while a TPM is set up.
#[derive(Clone, Copy, Debug)]
pub enum SetupInput {
    /// The setting up is to begin.
    Start,
    /// How many bytes went out with the data socket, or none on an error.
    DataFdSent(Option<usize>),
    /// The four bytes of a control command's result, or none on an error.
    Result(Option<[u8; 4]>),
    /// Whether all of the request to start went out.
    InitSent(bool),
}

/// What is to be done next while a TPM is set up.
#[derive(Debug)]
pub enum SetupAction {
    /// Send these bytes on the control socket, with one end of the data socket.
    SendDataFd(Vec<u8>),
    /// Read the four bytes of a result from the control socket.
    ReadResult,
    /// Send all of these bytes on the control socket.
    SendInit(Vec<u8>),
    /// Nothing: the TPM takes commands.
    Done,
    /// Give up with this error.
    Fail(ControlError),
}

/// The step that the setting up makes on an input, or none where the input is
/// not the one that it stands at: where it stands then, and what it failed with.
pub open spec fn setup_step(setup: Setup, input: SetupInput) -> Option<(Setup, Option<ControlError>)> {
    match (setup, input) {
        (Setup::Starting, SetupInput::Start) => Some((Setup::SendingDataFd, None)),
        (Setup::SendingDataFd, SetupInput::DataFdSent(sent)) => match sent {
            None => Some((Setup::Failed, Some(ControlError::Os))),
            Some(n) => if n != set_datafd_request().len() {
                Some((Setup::Failed, Some(ControlError::ShortWrite)))
            } else {
                Some((Setup::AwaitingDataFd, None))
            },
        },
        (Setup::AwaitingDataFd, SetupInput::Result(result)) => Some(
            after_result(result, Setup::SendingInit),
        ),
        (Setup::SendingInit, SetupInput::InitSent(sent)) => if sent {
            Some((Setup::AwaitingInit, None))
        } else {
            Some((Setup::Failed, Some(ControlError::Os)))
        },
        (Setup::AwaitingInit, SetupInput::Result(result)) => Some(
            after_result(result, Setup::Ready),
        ),
        _ => None,
    }
}

/// Where the setting up stands after the result of a control command, with
/// `next` as what follows on success.
pub open spec fn after_result(result: Option<[u8; 4]>, next: Setup) -> (
    Setup,
    Option<ControlError>,
) {
    match result {
        None => (Setup::Failed, Some(ControlError::Os)),
        Some(bytes) => if be_value(bytes@) == SWTPM_SUCCESS {
            (next, None)
        } else {
            (Setup::Failed, Some(ControlError::CommandFailed(be_value(bytes@) as u32)))
        },
    }
}

/// Where the setting up stands after an input.
pub open spec fn setup_after(setup: Setup, input: SetupInput) -> Setup {
    match setup_step(setup, input) {
        Some((next, _)) => next,
        None => setup,
    }
}

impl SetupAction {
    /// Whether this is what is to be done where the setting up stands at
    /// `setup`, after it failed with `fault` or did not fail.
    pub open spec fn fits(self, setup: Setup, fault: Option<ControlError>) -> bool {
        match setup {
            Setup::Starting => false,
            Setup::SendingDataFd => self matches SetupAction::SendDataFd(bytes) && bytes@
                == set_datafd_request(),
            Setup::AwaitingDataFd => self is ReadResult,
            Setup::SendingInit => self matches SetupAction::SendInit(bytes) && bytes@
                == init_request(),
            Setup::AwaitingInit => self is ReadResult,
            Setup::Ready => self is Done,
            Setup::Failed => self matches SetupAction::Fail(e) && fault == Some(e),
        }
    }
}

impl Setup {
    fn take_result(&mut self, result: Option<[u8; 4]>) -> (r: Result<(), ControlError>)
        ensures
            match r {
                Ok(_) => {
                    &&& result matches Some(bytes) && be_value(bytes@) == SWTPM_SUCCESS
                    &&& *final(self) == *old(self)
                },
                Err(e) => {
                    &&& *final(self) == Setup::Failed
                    &&& forall|next: Setup| #[trigger]
                        after_result(result, next) == (Setup::Failed, Some(e))
                },
            },
    {
        match result {
            None => {
                *self = Setup::Failed;
                Err(ControlError::Os)
            },
            Some(bytes) => match Swtpm::read_control_result(bytes) {
                Ok(()) => Ok(()),
                Err(e) => {
                    *self = Setup::Failed;
                    Err(e)
                },
            },
        }
    }

    /// Takes an input and says what to do next. An input that the setting up
    /// does not stand at changes nothing and gives no action.
    pub fn step(&mut self, input: SetupInput) -> (action: Option<SetupAction>)
        ensures
            match setup_step(*old(self), input) {
                Some((setup, fault)) => {
                    &&& *final(self) == setup
                    &&& action matches Some(a) && a.fits(setup, fault)
                },
                None => *final(self) == *old(self) && action is None,
            },
    {
        let request = u32_bytes(ByteOrder::Big, SWTPM_CMD_SET_DATAFD);
        match (*self, input) {
            (Setup::Starting, SetupInput::Start) => {
                *self = Setup::SendingDataFd;
                Some(SetupAction::SendDataFd(request))
            },
            (Setup::SendingDataFd, SetupInput::DataFdSent(None)) => {
                *self = Setup::Failed;
                Some(SetupAction::Fail(ControlError::Os))
            },
            (Setup::SendingDataFd, SetupInput::DataFdSent(Some(n))) => {
                if n != request.len() {
                    *self = Setup::Failed;
                    Some(SetupAction::Fail(ControlError::ShortWrite))
                } else {
                    *self = Setup::AwaitingDataFd;
                    Some(SetupAction::ReadResult)
                }
            },
            (Setup::AwaitingDataFd, SetupInput::Result(result)) => match self.take_result(result) {
                Err(e) => Some(SetupAction::Fail(e)),
                Ok(()) => {
                    *self = Setup::SendingInit;
                    let mut init = u32_bytes(ByteOrder::Big, SWTPM_CMD_INIT);
                    init.append(&mut u32_bytes(ByteOrder::Big, 0));
                    Some(SetupAction::SendInit(init))
                },
            },
            (Setup::SendingInit, SetupInput::InitSent(sent)) => {
                if sent {
                    *self = Setup::AwaitingInit;
                    Some(SetupAction::ReadResult)
                } else {
                    *self = Setup::Failed;
                    Some(SetupAction::Fail(ControlError::Os))
                }
            },
            (Setup::AwaitingInit, SetupInput::Result(result)) => match self.take_result(result) {
                Err(e) => Some(SetupAction::Fail(e)),
                Ok(()) => {
                    *self = Setup::Ready;
                    Some(SetupAction::Done)
                },
            },
            _ => None,
        }
    }
}

/// Why a command was not carried out. The texts are those of the system's
/// errors.
#[derive(Debug)]
pub enum Error {
    InvalidResponseSize(usize),
    ReadResponse(String),
    WriteCommand(String),
}

/// Where the exchange over the data socket stands.
#[derive(Clone, Copy, Debug)]
pub enum Phase {
    /// No command is under way.
    Idle,
    /// A command is being written.
    Writing,
    /// The header of the response is being read.
    ReadingHeader,
    /// What follows this header is being read.
    ReadingBody([u8; TPM_HEADER_SIZE]),
}

/// What is to be done next for a command.
#[derive(Debug)]
pub enum SwtpmAction {
    /// Write all of these bytes.
    WriteAll(Vec<u8>),
    /// Read just so many bytes.
    ReadExact(usize),
    /// Answer the guest with this response; `fault` tells what went wrong.
    Reply { response: Vec<u8>, fault: Option<Error> },
}

impl SwtpmAction {
    /// Whether this action answers a command that failed with `e`.
    pub open spec fn refuses(self, e: Error) -> bool {
        match self {
            SwtpmAction::Reply { response, fault } => {
                &&& response@ == TPM_RC_FAILURE_RESPONSE@
                &&& fault == Some(e)
            },
            _ => false,
        }
    }

    /// Whether this action answers a command with `bytes`, the TPM's response.
    pub open spec fn answers(self, bytes: Seq<u8>) -> bool {
        match self {
            SwtpmAction::Reply { response, fault } => response@ == bytes && fault is None,
            _ => false,
        }
    }
}

/// Whether a header announces a length that a response may have.
pub open spec fn size_allowed(header: Seq<u8>) -> bool {
    TPM_HEADER_SIZE <= size_of(header) <= TPM_BUFSIZE
}

/// The exchange with a software TPM.
pub struct Swtpm {
    phase: Phase,
}

fn refusal(e: Error) -> (action: SwtpmAction)
    ensures
        action.refuses(e),
{
    SwtpmAction::Reply { response: failure_response(), fault: Some(e) }
}

impl Swtpm {
    /// Where the exchange stands.
    pub closed spec fn phase(&self) -> Phase {
        self.phase
    }

    /// Whether the header that is waiting for its body announces a length that
    /// a response may have.
    #[verifier::type_invariant]
    spec fn header_checked(self) -> bool {
        self.phase matches Phase::ReadingBody(header) ==> size_allowed(header@)
    }

    /// An exchange before its first command.
    pub fn new() -> (tpm: Self)
        ensures
            tpm.phase() is Idle,
    {
        Swtpm { phase: Phase::Idle }
    }

    /// Judges the four bytes in which a control command's result comes.
    pub fn read_control_result(response: [u8; 4]) -> (r: Result<(), ControlError>)
        ensures
            r == (if be_value(response@) == SWTPM_SUCCESS {
                Ok::<(), ControlError>(())
            } else {
                Err::<(), ControlError>(ControlError::CommandFailed(be_value(response@) as u32))
            }),
    {
        assert(response@.subrange(0, 4) =~= response@);
        let result: u32 = u32_at(ByteOrder::Big, &response, 0);
        if result == SWTPM_SUCCESS {
            Ok(())
        } else {
            Err(ControlError::CommandFailed(result))
        }
    }

    /// Begins a command, which is written as it is.
    pub fn execute_command(&mut self, command: &[u8]) -> (action: SwtpmAction)
        ensures
            action matches SwtpmAction::WriteAll(bytes) && bytes@ == command@,
            final(self).phase() is Writing,
    {
        self.phase = Phase::Writing;
        SwtpmAction::WriteAll(slice_to_vec(command))
    }

    /// Takes whether the command could be written. Where no command is being
    /// written, there is nothing to do. An answer is as long as its header
    /// announces.
    pub fn command_written(&mut self, written: Result<(), String>) -> (action: Option<SwtpmAction>)
        ensures
            action matches Some(SwtpmAction::Reply { response, .. }) ==> is_framed(response@),
            match old(self).phase() {
                Phase::Writing => match written {
                    Err(text) => {
                        &&& action matches Some(a) && a.refuses(Error::WriteCommand(text))
                        &&& final(self).phase() is Idle
                    },
                    Ok(_) => {
                        &&& action matches Some(SwtpmAction::ReadExact(n)) && n == TPM_HEADER_SIZE
                        &&& final(self).phase() is ReadingHeader
                    },
                },
                _ => action is None && final(self).phase() == old(self).phase(),
            },
    {
        proof {
            law_failure_response_is_a_message();
        }
        match self.phase {
            Phase::Writing => {},
            _ => return None,
        }
        match written {
            Err(text) => {
                self.phase = Phase::Idle;
                Some(refusal(Error::WriteCommand(text)))
            },
            Ok(()) => {
                self.phase = Phase::ReadingHeader;
                Some(SwtpmAction::ReadExact(TPM_HEADER_SIZE))
            },
        }
    }

    /// Takes the header of the response. Where no header is being read, there
    /// is nothing to do. An answer is as long as its header announces.
    pub fn header_read(&mut self, header: Result<[u8; TPM_HEADER_SIZE], String>) -> (action: Option<
        SwtpmAction,
    >)
        ensures
            action matches Some(SwtpmAction::Reply { response, .. }) ==> is_framed(response@),
            match old(self).phase() {
                Phase::ReadingHeader => match header {
                    Err(text) => {
                        &&& action matches Some(a) && a.refuses(Error::ReadResponse(text))
                        &&& final(self).phase() is Idle
                    },
                    Ok(bytes) => if size_allowed(bytes@) {
                        &&& action matches Some(SwtpmAction::ReadExact(n)) && n == size_of(bytes@)
                            - TPM_HEADER_SIZE
                        &&& final(self).phase() == Phase::ReadingBody(bytes)
                    } else {
                        &&& action matches Some(a) && a.refuses(
                            Error::InvalidResponseSize(size_of(bytes@) as usize),
                        )
                        &&& final(self).phase() is Idle
                    },
                },
                _ => action is None && final(self).phase() == old(self).phase(),
            },
    {
        proof {
            law_failure_response_is_a_message();
        }
        match self.phase {
            Phase::ReadingHeader => {},
            _ => return None,
        }
        self.phase = Phase::Idle;
        match header {
            Err(text) => Some(refusal(Error::ReadResponse(text))),
            Ok(bytes) => {
                let size: usize = u32_at(ByteOrder::Big, &bytes, 2) as usize;
                if !(TPM_HEADER_SIZE <= size && size <= TPM_BUFSIZE) {
                    return Some(refusal(Error::InvalidResponseSize(size)));
                }
                self.phase = Phase::ReadingBody(bytes);
                Some(SwtpmAction::ReadExact(size - TPM_HEADER_SIZE))
            },
        }
    }

    /// Takes what follows the header of the response: as many bytes as were
    /// asked for, or the error that came instead. Where no body is being read,
    /// or one of another length, there is nothing to do. The answer is as long
    /// as its header announces.
    pub fn body_read(&mut self, body: Result<Vec<u8>, String>) -> (action: Option<SwtpmAction>)
        ensures
            action matches Some(SwtpmAction::Reply { response, .. }) ==> is_framed(response@),
            match (old(self).phase(), body) {
                (Phase::ReadingBody(header), Err(text)) => {
                    &&& action matches Some(a) && a.refuses(Error::ReadResponse(text))
                    &&& final(self).phase() is Idle
                },
                (Phase::ReadingBody(header), Ok(bytes)) => if TPM_HEADER_SIZE + bytes@.len()
                    == size_of(header@) {
                    &&& action matches Some(a) && a.answers(header@ + bytes@)
                    &&& final(self).phase() is Idle
                } else {
                    action is None && final(self).phase() == old(self).phase()
                },
                _ => action is None && final(self).phase() == old(self).phase(),
            },
    {
        proof {
            use_type_invariant(&*self);
            law_failure_response_is_a_message();
        }
        let header: [u8; TPM_HEADER_SIZE] = match self.phase {
            Phase::ReadingBody(header) => header,
            _ => return None,
        };
        match body {
            Err(text) => {
                self.phase = Phase::Idle;
                Some(refusal(Error::ReadResponse(text)))
            },
            Ok(bytes) => {
                let size: usize = u32_at(ByteOrder::Big, &header, 2) as usize;
                if bytes.len() != size - TPM_HEADER_SIZE {
                    return None;
                }
                self.phase = Phase::Idle;
                let mut response = slice_to_vec(&header);
                let mut rest = bytes;
                response.append(&mut rest);
                assert(response@.subrange(2, 6) =~= header@.subrange(2, 6));
                Some(SwtpmAction::Reply { response, fault: None })
            },
        }
    }

    /// Takes the bytes that were read last, or the error that came instead, and
    /// goes on with them as the header of the response or as what follows it,
    /// whichever is being read. Where nothing is being read, or not so many
    /// bytes, there is nothing to do. An answer is as long as its header
    /// announces.
    pub fn bytes_read(&mut self, read: Result<Vec<u8>, String>) -> (action: Option<SwtpmAction>)
        ensures
            action matches Some(SwtpmAction::Reply { response, .. }) ==> is_framed(response@),
            match (old(self).phase(), read) {
                (Phase::ReadingHeader, Err(text)) | (Phase::ReadingBody(_), Err(text)) => {
                    &&& action matches Some(a) && a.refuses(Error::ReadResponse(text))
                    &&& final(self).phase() is Idle
                },
                (Phase::ReadingHeader, Ok(bytes)) => if bytes@.len() != TPM_HEADER_SIZE {
                    action is None && final(self).phase() == old(self).phase()
                } else if size_allowed(bytes@) {
                    &&& action matches Some(SwtpmAction::ReadExact(n)) && n == size_of(bytes@)
                        - TPM_HEADER_SIZE
                    &&& final(self).phase() matches Phase::ReadingBody(header) && header@ == bytes@
                } else {
                    &&& action matches Some(a) && a.refuses(
                        Error::InvalidResponseSize(size_of(bytes@) as usize),
                    )
                    &&& final(self).phase() is Idle
                },
                (Phase::ReadingBody(header), Ok(bytes)) => if TPM_HEADER_SIZE + bytes@.len()
                    == size_of(header@) {
                    &&& action matches Some(a) && a.answers(header@ + bytes@)
                    &&& final(self).phase() is Idle
                } else {
                    action is None && final(self).phase() == old(self).phase()
                },
                _ => action is None && final(self).phase() == old(self).phase(),
            },
    {
        match self.phase {
            Phase::ReadingHeader => match read {
                Err(text) => self.header_read(Err(text)),
                Ok(bytes) => {
                    if bytes.len() != TPM_HEADER_SIZE {
                        return None;
                    }
                    let mut header: [u8; TPM_HEADER_SIZE] = [0; TPM_HEADER_SIZE];
                    store(&mut header, 0, &bytes);
                    assert(header@ =~= bytes@);
                    self.header_read(Ok(header))
                },
            },
            Phase::ReadingBody(_) => self.body_read(read),
            _ => None,
        }
    }
}

/// A software TPM takes commands only after both control commands were sent in
/// full and in order, and each was answered with success; after a failure it
/// never does.
pub proof fn law_ready_after_two_successes(
    sent: Option<usize>,
    first: Option<[u8; 4]>,
    init_sent: bool,
    second: Option<[u8; 4]>,
    input: SetupInput,
)
    ensures
        ({
            let a = setup_after(Setup::Starting, SetupInput::Start);
            let b = setup_after(a, SetupInput::DataFdSent(sent));
            let c = setup_after(b, SetupInput::Result(first));
            let d = setup_after(c, SetupInput::InitSent(init_sent));
            let e = setup_after(d, SetupInput::Result(second));
            &&& e is Ready || e is Failed
            &&& e is Ready <==> {
                &&& sent matches Some(n) && n == set_datafd_request().len()
                &&& first matches Some(bytes) && be_value(bytes@) == SWTPM_SUCCESS
                &&& init_sent
                &&& second matches Some(bytes) && be_value(bytes@) == SWTPM_SUCCESS
            }
        }),
        setup_after(Setup::Failed, input) == Setup::Failed,
{
    lemma_bytes_of_len(ByteOrder::Big, SWTPM_CMD_SET_DATAFD as nat, 4);
}

} // verus!

//! Commands to a TPM character device of the host.
//!
//! The device takes a command by one write and gives its response by one read.
//! `HostTpm` says when to write and to read, judges what came of it, and has
//! an answer for the guest in every case.

use crate::bytes::{be_u16_at, u32_at, ByteOrder};
use crate::tpm::{
    failure_response, is_framed, law_failure_response_is_a_message, size_of, tag_of, TPM_BUFSIZE,
    TPM_HEADER_SIZE, TPM_RC_FAILURE_RESPONSE, TPM_ST_NO_SESSIONS, TPM_ST_SESSIONS,
};
use vstd::prelude::*;
use vstd::slice::slice_to_vec;

verus! {

/// Why a command was not carried out. The texts are those of the system's
/// errors.
#[derive(Debug)]
pub enum Error {
    InvalidMessageSize(usize),
    InvalidTag(u16),
    LengthMismatch { header: usize, actual: usize },
    ReadResponse(String),
    ShortMessage(usize),
    ShortWrite { expected: usize, actual: usize },
    WriteCommand(String),
}

/// What is wrong with the header of `message`, if anything.
pub open spec fn header_fault(message: Seq<u8>) -> Option<Error> {
    if message.len() < TPM_HEADER_SIZE {
        Some(Error::ShortMessage(message.len() as usize))
    } else if tag_of(message) != TPM_ST_NO_SESSIONS && tag_of(message) != TPM_ST_SESSIONS {
        Some(Error::InvalidTag(tag_of(message) as u16))
    } else if !(TPM_HEADER_SIZE <= size_of(message) <= TPM_BUFSIZE) {
        Some(Error::InvalidMessageSize(size_of(message) as usize))
    } else {
        None
    }
}

/// What is wrong with `message`, if anything: its header, or that it is not as
/// long as the header announces.
pub open spec fn message_fault(message: Seq<u8>) -> Option<Error> {
    if header_fault(message) is Some {
        header_fault(message)
    } else if size_of(message) != message.len() {
        Some(
            Error::LengthMismatch {
                header: size_of(message) as usize,
                actual: message.len() as usize,
            },
        )
    } else {
        None
    }
}

/// What is wrong after the write of a command of `len` bytes, if anything.
pub open spec fn write_fault(len: nat, written: Result<usize, String>) -> Option<Error> {
    match written {
        Err(text) => Some(Error::WriteCommand(text)),
        Ok(n) => if n != len {
            Some(Error::ShortWrite { expected: len as usize, actual: n })
        } else {
            None
        },
    }
}

/// What is wrong with what the read of a response gave, if anything.
pub open spec fn read_fault(read: Result<Vec<u8>, String>) -> Option<Error> {
    match read {
        Err(text) => Some(Error::ReadResponse(text)),
        Ok(response) => message_fault(response@),
    }
}

/// Where the exchange with the device stands.
#[derive(Clone, Copy, Debug, PartialEq, Eq, Structural)]
pub enum Phase {
    /// No command is under way.
    Idle,
    /// A command of this length is being written.
    Writing(usize),
    /// The response is being read.
    Reading,
}

/// What is to be done next for a command.
#[derive(Debug)]
pub enum TpmAction {
    /// Hand these bytes to the device, by a single write.
    Write(Vec<u8>),
    /// Read the response by a single read of at most so many bytes.
    Read(usize),
    /// Answer the guest with this response; `fault` tells what went wrong.
    Reply { response: Vec<u8>, fault: Option<Error> },
}

impl TpmAction {
    /// Whether this action answers a command that failed with `e`.
    pub open spec fn refuses(self, e: Error) -> bool {
        match self {
            TpmAction::Reply { response, fault } => {
                &&& response@ == TPM_RC_FAILURE_RESPONSE@
                &&& fault == Some(e)
            },
            _ => false,
        }
    }

    /// Whether this action answers a command with `bytes`, the TPM's response.
    pub open spec fn answers(self, bytes: Seq<u8>) -> bool {
        match self {
            TpmAction::Reply { response, fault } => response@ == bytes && fault is None,
            _ => false,
        }
    }
}

/// The exchange with a TPM character device.
pub struct HostTpm {
    phase: Phase,
}

fn refusal(e: Error) -> (action: TpmAction)
    ensures
        action.refuses(e),
{
    TpmAction::Reply { response: failure_response(), fault: Some(e) }
}

impl HostTpm {
    /// Where the exchange stands.
    pub closed spec fn phase(&self) -> Phase {
        self.phase
    }

    /// An exchange before its first command.
    pub fn new() -> (tpm: Self)
        ensures
            tpm.phase() == Phase::Idle,
    {
        HostTpm { phase: Phase::Idle }
    }

    /// Judges the header of a message, and gives the length that it announces.
    pub fn validate_header(message: &[u8]) -> (r: Result<usize, Error>)
        ensures
            match r {
                Ok(size) => header_fault(message@) is None && size == size_of(message@),
                Err(e) => header_fault(message@) == Some(e),
            },
    {
        if message.len() < TPM_HEADER_SIZE {
            return Err(Error::ShortMessage(message.len()));
        }
        let tag: u16 = be_u16_at(message, 0);
        if tag != TPM_ST_NO_SESSIONS && tag != TPM_ST_SESSIONS {
            return Err(Error::InvalidTag(tag));
        }
        let size: usize = u32_at(ByteOrder::Big, message, 2) as usize;
        if !(TPM_HEADER_SIZE <= size && size <= TPM_BUFSIZE) {
            return Err(Error::InvalidMessageSize(size));
        }
        Ok(size)
    }

    /// Judges a whole message.
    pub fn validate_message(message: &[u8]) -> (r: Result<(), Error>)
        ensures
            match r {
                Ok(_) => message_fault(message@) is None,
                Err(e) => message_fault(message@) == Some(e),
            },
    {
        match Self::validate_header(message) {
            Err(e) => Err(e),
            Ok(size) => if size != message.len() {
                Err(Error::LengthMismatch { header: size, actual: message.len() })
            } else {
                Ok(())
            },
        }
    }

    /// Begins a command: it is written to the device if it is a well-formed
    /// message, and refused if not. The answer to a refused command is a
    /// well-formed message.
    pub fn execute_command(&mut self, command: &[u8]) -> (action: TpmAction)
        ensures
            action is Reply ==> message_fault(action->response@) is None,
            match message_fault(command@) {
                Some(e) => action.refuses(e) && final(self).phase() == Phase::Idle,
                None => {
                    &&& action matches TpmAction::Write(bytes) && bytes@ == command@
                    &&& final(self).phase() == Phase::Writing(command@.len() as usize)
                },
            },
    {
        proof {
            law_failure_response_is_a_message();
        }
        match Self::validate_message(command) {
            Err(e) => {
                self.phase = Phase::Idle;
                refusal(e)
            },
            Ok(()) => {
                self.phase = Phase::Writing(command.len());
                TpmAction::Write(slice_to_vec(command))
            },
        }
    }

    /// Takes what the write of the command returned. Where no command is being
    /// written, there is nothing to do. An answer is a well-formed message.
    pub fn command_written(&mut self, written: Result<usize, String>) -> (action: Option<TpmAction>)
        ensures
            action matches Some(TpmAction::Reply { response, .. }) ==> message_fault(response@) is None,
            match old(self).phase() {
                Phase::Writing(len) => match write_fault(len as nat, written) {
                    Some(e) => {
                        &&& action matches Some(a) && a.refuses(e)
                        &&& final(self).phase() == Phase::Idle
                    },
                    None => {
                        &&& action matches Some(TpmAction::Read(n)) && n == TPM_BUFSIZE
                        &&& final(self).phase() == Phase::Reading
                    },
                },
                _ => action is None && final(self).phase() == old(self).phase(),
            },
    {
        proof {
            law_failure_response_is_a_message();
        }
        let len: usize = match self.phase {
            Phase::Writing(len) => len,
            _ => return None,
        };
        self.phase = Phase::Idle;
        match written {
            Err(text) => Some(refusal(Error::WriteCommand(text))),
            Ok(n) => if n != len {
                Some(refusal(Error::ShortWrite { expected: len, actual: n }))
            } else {
                self.phase = Phase::Reading;
                Some(TpmAction::Read(TPM_BUFSIZE))
            },
        }
    }

    /// Takes what the read of the response gave. Where no response is being
    /// read, there is nothing to do. The answer is a well-formed message,
    /// whatever the device gave.
    pub fn response_read(&mut self, read: Result<Vec<u8>, String>) -> (action: Option<TpmAction>)
        ensures
            action matches Some(TpmAction::Reply { response, .. }) ==> message_fault(response@) is None,
            match old(self).phase() {
                Phase::Reading => {
                    &&& final(self).phase() == Phase::Idle
                    &&& action matches Some(a) && (match read_fault(read) {
                        Some(e) => a.refuses(e),
                        None => a.answers(read->Ok_0@),
                    })
                },
                _ => action is None && final(self).phase() == old(self).phase(),
            },
    {
        proof {
            law_failure_response_is_a_message();
        }
        match self.phase {
            Phase::Reading => {},
            _ => return None,
        }
        self.phase = Phase::Idle;
        match read {
            Err(text) => Some(refusal(Error::ReadResponse(text))),
            Ok(response) => match Self::validate_message(&response) {
                Err(e) => Some(refusal(e)),
                Ok(()) => Some(TpmAction::Reply { response, fault: None }),
            },
        }
    }
}

/// A message has no fault if and only if it bears one of the two tags and is as
/// long as its header announces, which is from 10 to 4096 bytes.
pub proof fn law_well_formed_messages(message: Seq<u8>)
    ensures
        message_fault(message) is None <==> is_framed(message) && (tag_of(message)
            == TPM_ST_NO_SESSIONS || tag_of(message) == TPM_ST_SESSIONS),
{
}

} // verus!

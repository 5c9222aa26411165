//! What can be relied on when TPM commands are carried out.

use crate::bytes::{be_bytes, be_value, le_bytes};
use crate::error::ErrorKind;
use crate::host_tpm::{header_fault, message_fault, Error as HostError, HostTpm, TpmAction};
use crate::swtpm::{
    ControlError, Error as SwtpmError, Setup, SetupAction, SetupInput, Swtpm, SwtpmAction,
};
use crate::text::{hex_digits, push_hex};
use crate::tpm::{failure_response, TPM_RC_FAILURE_RESPONSE};
use crate::words::{be_half, be_word, lemma_words};
use vstd::prelude::*;

verus! {

/// Whether `m` is as long as the number in its bytes 2 to 5 says, which is from
/// 10 to 4096 bytes.
pub open spec fn is_whole(m: Seq<u8>) -> bool {
    10 <= m.len() <= 4096 && be_word(m, 2) == m.len()
}

/// Whether `m` starts with one of the two tags of a message.
pub open spec fn is_tagged(m: Seq<u8>) -> bool {
    be_half(m, 0) == 0x8001 || be_half(m, 0) == 0x8002
}

/// The response to a command that could not be carried out: a message without
/// sessions, of ten bytes, with the code of a failure.
pub open spec fn failure() -> Seq<u8> {
    seq![0x80u8, 1u8, 0u8, 0u8, 0u8, 10u8, 0u8, 0u8, 1u8, 1u8]
}

/// The failure response is the same ten bytes each time.
pub proof fn law_failure_response(response: Vec<u8>)
    requires
        call_ensures(failure_response, (), response),
    ensures
        response@ == failure(),
        is_whole(response@) && is_tagged(response@),
{
    assert(response@ =~= failure());
}

/// Whether `e` tells what is wrong with the header of `m`: it is short, it bears
/// another tag, or it announces a length that no message has. Each is told only
/// where those before it are not the case.
pub open spec fn spoils_header(m: Seq<u8>, e: HostError) -> bool {
    match e {
        HostError::ShortMessage(n) => m.len() < 10 && n == m.len(),
        HostError::InvalidTag(tag) => m.len() >= 10 && !is_tagged(m) && tag == be_half(m, 0),
        HostError::InvalidMessageSize(n) => {
            &&& m.len() >= 10
            &&& is_tagged(m)
            &&& n == be_word(m, 2)
            &&& n < 10 || n > 4096
        },
        _ => false,
    }
}

/// Whether `e` tells what is wrong with `m`: its header, or that it is not as
/// long as a sound header announces.
pub open spec fn spoils_message(m: Seq<u8>, e: HostError) -> bool {
    match e {
        HostError::LengthMismatch { header, actual } => {
            &&& m.len() >= 10
            &&& is_tagged(m)
            &&& header == be_word(m, 2)
            &&& 10 <= header <= 4096
            &&& actual == m.len()
            &&& header != actual
        },
        _ => spoils_header(m, e),
    }
}

proof fn lemma_faults(m: Seq<u8>)
    requires
        m.len() <= usize::MAX,
    ensures
        match header_fault(m) {
            Some(e) => spoils_header(m, e),
            None => m.len() >= 10 && is_tagged(m) && 10 <= be_word(m, 2) <= 4096,
        },
        match message_fault(m) {
            Some(e) => spoils_message(m, e),
            None => is_whole(m) && is_tagged(m),
        },
        is_whole(m) && is_tagged(m) ==> message_fault(m) is None,
{
    lemma_words(m, 0);
    lemma_words(m, 2);
}

/// A header is sound if and only if it is whole, bears one of the two tags and
/// announces from 10 to 4096 bytes; the length is the one that it announces.
pub proof fn law_headers_are_judged(message: &[u8], r: Result<usize, HostError>)
    requires
        call_ensures(HostTpm::validate_header, (message,), r),
    ensures
        match r {
            Ok(size) => message@.len() >= 10 && is_tagged(message@) && 10 <= size <= 4096 && size
                == be_word(message@, 2),
            Err(e) => spoils_header(message@, e),
        },
{
    assert(message@.len() == message.len());
    lemma_faults(message@);
    lemma_words(message@, 2);
}

/// A message is sound if and only if it bears one of the two tags and is as long
/// as it announces, from 10 to 4096 bytes.
pub proof fn law_messages_are_judged(message: &[u8], r: Result<(), HostError>)
    requires
        call_ensures(HostTpm::validate_message, (message,), r),
    ensures
        r is Ok <==> is_whole(message@) && is_tagged(message@),
        r matches Err(e) ==> spoils_message(message@, e),
{
    assert(message@.len() == message.len());
    lemma_faults(message@);
}

/// Whether the guest is answered with the failure response, for a reason.
pub open spec fn host_fails(action: TpmAction, e: HostError) -> bool {
    action matches TpmAction::Reply { response, fault } && response@ == failure() && fault == Some(
        e,
    )
}

/// A command that is not a sound message never reaches the device: the guest is
/// answered with the failure response at once, and nothing is awaited.
pub proof fn law_host_tpm_refuses(
    tpm: &mut HostTpm,
    command: &[u8],
    action: TpmAction,
    later: &mut HostTpm,
    other: &mut HostTpm,
    written: Result<usize, String>,
    after_write: Option<TpmAction>,
    read: Result<Vec<u8>, String>,
    after_read: Option<TpmAction>,
)
    requires
        call_ensures(HostTpm::execute_command, (tpm, command), action),
        !(is_whole(command@) && is_tagged(command@)),
        *old(later) == *final(tpm) && *old(other) == *final(tpm),
        call_ensures(HostTpm::command_written, (later, written), after_write),
        call_ensures(HostTpm::response_read, (other, read), after_read),
    ensures
        action matches TpmAction::Reply { fault: Some(e), .. } && spoils_message(command@, e)
            && host_fails(action, e),
        after_write is None,
        after_read is None,
{
    assert(command@.len() == command.len());
    lemma_faults(command@);
    assert(TPM_RC_FAILURE_RESPONSE@ =~= failure());
}

/// A command that is a sound message is handed to the device whole, by one
/// write. If that write takes all of it, one read of up to 4096 bytes follows.
/// What it gives is the guest's answer if it is a sound message. In all other
/// cases the guest is answered with the failure response, for the reason that
/// there was.
pub proof fn law_host_tpm_exchange(
    one: &mut HostTpm,
    command: &[u8],
    first: TpmAction,
    two: &mut HostTpm,
    written: Result<usize, String>,
    second: Option<TpmAction>,
    three: &mut HostTpm,
    read: Result<Vec<u8>, String>,
    third: Option<TpmAction>,
)
    requires
        is_whole(command@) && is_tagged(command@),
        call_ensures(HostTpm::execute_command, (one, command), first),
        *old(two) == *final(one),
        call_ensures(HostTpm::command_written, (two, written), second),
        *old(three) == *final(two),
        call_ensures(HostTpm::response_read, (three, read), third),
    ensures
        first matches TpmAction::Write(bytes) && bytes@ == command@,
        match written {
            Err(text) => second matches Some(action) && host_fails(
                action,
                HostError::WriteCommand(text),
            ),
            Ok(n) => if n == command@.len() {
                second matches Some(TpmAction::Read(max)) && max == 4096
            } else {
                second matches Some(action) && host_fails(
                    action,
                    HostError::ShortWrite { expected: command@.len() as usize, actual: n },
                )
            },
        },
        if written matches Ok(n) && n == command@.len() {
            match read {
                Err(text) => third matches Some(action) && host_fails(
                    action,
                    HostError::ReadResponse(text),
                ),
                Ok(bytes) => if is_whole(bytes@) && is_tagged(bytes@) {
                    third matches Some(TpmAction::Reply { response, fault }) && response@ == bytes@
                        && fault is None
                } else {
                    third matches Some(TpmAction::Reply { response, fault: Some(e) }) && response@
                        == failure() && spoils_message(bytes@, e)
                },
            }
        } else {
            third is None
        },
{
    assert(command@.len() == command.len());
    lemma_faults(command@);
    if let Ok(bytes) = read {
        assert(bytes@.len() == bytes.len());
        lemma_faults(bytes@);
    }
    assert(TPM_RC_FAILURE_RESPONSE@ =~= failure());
}

/// Before the first command no result is awaited.
pub proof fn law_host_tpm_awaits_nothing(
    fresh: HostTpm,
    one: &mut HostTpm,
    two: &mut HostTpm,
    written: Result<usize, String>,
    read: Result<Vec<u8>, String>,
    actions: Seq<Option<TpmAction>>,
)
    requires
        actions.len() == 2,
        call_ensures(HostTpm::new, (), fresh),
        *old(one) == fresh && *old(two) == fresh,
        call_ensures(HostTpm::command_written, (one, written), actions[0]),
        call_ensures(HostTpm::response_read, (two, read), actions[1]),
    ensures
        actions[0] is None && actions[1] is None,
{
}

/// Whether the guest is answered with the failure response, for a reason.
pub open spec fn swtpm_fails(action: SwtpmAction, e: SwtpmError) -> bool {
    action matches SwtpmAction::Reply { response, fault } && response@ == failure() && fault
        == Some(e)
}

/// A command goes out as it is. Then the ten bytes of a header are read, then as
/// many more as the header announces, which is refused if and only if the whole
/// is below 10 or above 4096 bytes. The answer is the header and what follows
/// it. A write or a read that fails is answered with the failure response.
pub proof fn law_swtpm_exchange(
    one: &mut Swtpm,
    command: &[u8],
    first: SwtpmAction,
    two: &mut Swtpm,
    written: Result<(), String>,
    second: Option<SwtpmAction>,
    three: &mut Swtpm,
    header: Result<[u8; 10], String>,
    third: Option<SwtpmAction>,
    four: &mut Swtpm,
    body: Result<Vec<u8>, String>,
    fourth: Option<SwtpmAction>,
)
    requires
        call_ensures(Swtpm::execute_command, (one, command), first),
        *old(two) == *final(one),
        call_ensures(Swtpm::command_written, (two, written), second),
        *old(three) == *final(two),
        call_ensures(Swtpm::header_read, (three, header), third),
        *old(four) == *final(three),
        call_ensures(Swtpm::body_read, (four, body), fourth),
    ensures
        first matches SwtpmAction::WriteAll(bytes) && bytes@ == command@,
        match written {
            Ok(_) => second matches Some(SwtpmAction::ReadExact(n)) && n == 10,
            Err(text) => second matches Some(action) && swtpm_fails(
                action,
                SwtpmError::WriteCommand(text),
            ),
        },
        match (written, header) {
            (Err(_), _) => third is None && fourth is None,
            (Ok(_), Err(text)) => {
                &&& third matches Some(action) && swtpm_fails(
                    action,
                    SwtpmError::ReadResponse(text),
                )
                &&& fourth is None
            },
            (Ok(_), Ok(h)) => {
                let size = be_word(h@, 2);
                if 10 <= size <= 4096 {
                    &&& third matches Some(SwtpmAction::ReadExact(n)) && n == size - 10
                    &&& match body {
                        Err(text) => fourth matches Some(action) && swtpm_fails(
                            action,
                            SwtpmError::ReadResponse(text),
                        ),
                        Ok(bytes) => if bytes@.len() == size - 10 {
                            fourth matches Some(SwtpmAction::Reply { response, fault }) && response@
                                == h@ + bytes@ && fault is None
                        } else {
                            fourth is None
                        },
                    }
                } else {
                    &&& third matches Some(action) && swtpm_fails(
                        action,
                        SwtpmError::InvalidResponseSize(size as usize),
                    )
                    &&& fourth is None
                }
            },
        },
{
    if let Ok(h) = header {
        lemma_words(h@, 2);
    }
    assert(TPM_RC_FAILURE_RESPONSE@ =~= failure());
}

/// Every message from 10 to 4096 bytes that is as long as it announces, and that
/// the TPM sends in answer to a command, is what the guest is answered with.
pub proof fn law_swtpm_whole_messages_pass(
    one: &mut Swtpm,
    command: &[u8],
    first: SwtpmAction,
    two: &mut Swtpm,
    second: Option<SwtpmAction>,
    message: Seq<u8>,
    three: &mut Swtpm,
    front: Vec<u8>,
    third: Option<SwtpmAction>,
    four: &mut Swtpm,
    rest: Vec<u8>,
    fourth: Option<SwtpmAction>,
)
    requires
        is_whole(message),
        front@ == message.take(10),
        rest@ == message.skip(10),
        call_ensures(Swtpm::execute_command, (one, command), first),
        *old(two) == *final(one),
        call_ensures(Swtpm::command_written, (two, Ok(())), second),
        *old(three) == *final(two),
        call_ensures(Swtpm::bytes_read, (three, Ok(front)), third),
        *old(four) == *final(three),
        call_ensures(Swtpm::bytes_read, (four, Ok(rest)), fourth),
    ensures
        second matches Some(SwtpmAction::ReadExact(n)) && n == 10,
        third matches Some(SwtpmAction::ReadExact(n)) && n == message.len() - 10,
        fourth matches Some(SwtpmAction::Reply { response, fault }) && response@ == message && fault
            is None,
{
    lemma_words(front@, 2);
    assert(front@ + rest@ =~= message);
    assert(be_word(front@, 2) == be_word(message, 2));
}

/// A header that announces fewer than 10 or more than 4096 bytes is answered
/// with the failure response, and so is an error in place of either part. Bytes
/// of another number than was asked for change nothing.
pub proof fn law_swtpm_bad_bytes(
    one: &mut Swtpm,
    command: &[u8],
    first: SwtpmAction,
    two: &mut Swtpm,
    second: Option<SwtpmAction>,
    three: &mut Swtpm,
    read: Result<Vec<u8>, String>,
    third: Option<SwtpmAction>,
    four: &mut Swtpm,
    text: String,
    fourth: Option<SwtpmAction>,
)
    requires
        call_ensures(Swtpm::execute_command, (one, command), first),
        *old(two) == *final(one),
        call_ensures(Swtpm::command_written, (two, Ok(())), second),
        *old(three) == *final(two),
        call_ensures(Swtpm::bytes_read, (three, read), third),
        *old(four) == *final(three),
        call_ensures(Swtpm::bytes_read, (four, Err(text)), fourth),
    ensures
        match read {
            Err(e) => third matches Some(action) && swtpm_fails(
                action,
                SwtpmError::ReadResponse(e),
            ),
            Ok(bytes) => if bytes@.len() != 10 {
                third is None && final(three).phase() == old(three).phase()
            } else if 10 <= be_word(bytes@, 2) <= 4096 {
                &&& third matches Some(SwtpmAction::ReadExact(n)) && n == be_word(bytes@, 2) - 10
                &&& fourth matches Some(action) && swtpm_fails(
                    action,
                    SwtpmError::ReadResponse(text),
                )
            } else {
                third matches Some(action) && swtpm_fails(
                    action,
                    SwtpmError::InvalidResponseSize(be_word(bytes@, 2) as usize),
                )
            },
        },
{
    if let Ok(bytes) = read {
        lemma_words(bytes@, 2);
    }
    assert(TPM_RC_FAILURE_RESPONSE@ =~= failure());
}

/// Before the first command no result is awaited.
pub proof fn law_swtpm_awaits_nothing(
    fresh: Swtpm,
    one: &mut Swtpm,
    two: &mut Swtpm,
    three: &mut Swtpm,
    four: &mut Swtpm,
    written: Result<(), String>,
    header: Result<[u8; 10], String>,
    read: Result<Vec<u8>, String>,
    actions: Seq<Option<SwtpmAction>>,
)
    requires
        actions.len() == 4,
        call_ensures(Swtpm::new, (), fresh),
        *old(one) == fresh && *old(two) == fresh && *old(three) == fresh && *old(four) == fresh,
        call_ensures(Swtpm::command_written, (one, written), actions[0]),
        call_ensures(Swtpm::header_read, (two, header), actions[1]),
        call_ensures(Swtpm::body_read, (three, read), actions[2]),
        call_ensures(Swtpm::bytes_read, (four, read), actions[3]),
    ensures
        actions[0] is None && actions[1] is None && actions[2] is None && actions[3] is None,
{
}

proof fn lemma_be4(v: nat)
    requires
        v < 0x100,
    ensures
        be_bytes(v, 4) == seq![0u8, 0u8, 0u8, v as u8],
{
    reveal_with_fuel(le_bytes, 5);
    assert(be_bytes(v, 4) =~= seq![0u8, 0u8, 0u8, v as u8]);
}

proof fn lemma_result(bytes: [u8; 4])
    ensures
        be_value(bytes@) == be_word(bytes@, 0),
{
    lemma_words(bytes@, 0);
    assert(bytes@.subrange(0, 4) =~= bytes@);
}

/// A control command succeeded if and only if its four result bytes are all
/// zero; otherwise its result is the number that they spell, the most
/// significant byte first.
pub proof fn law_control_results(bytes: [u8; 4], r: Result<(), ControlError>)
    requires
        call_ensures(Swtpm::read_control_result, (bytes,), r),
    ensures
        r is Ok <==> bytes@[0] == 0 && bytes@[1] == 0 && bytes@[2] == 0 && bytes@[3] == 0,
        r matches Err(e) ==> (e matches ControlError::CommandFailed(n) && n == be_word(bytes@, 0)),
{
    lemma_result(bytes);
}

/// Whether the setting up went on to `next`, or failed with `fault`.
pub open spec fn setup_went(
    state: Setup,
    action: Option<SetupAction>,
    next: Setup,
    fault: Option<ControlError>,
) -> bool {
    match fault {
        Some(e) => state is Failed && (action matches Some(SetupAction::Fail(f)) && f == e),
        None => {
            &&& state == next
            &&& match next {
                Setup::SendingDataFd => action matches Some(SetupAction::SendDataFd(bytes))
                    && bytes@ == seq![0u8, 0u8, 0u8, 0x10u8],
                Setup::SendingInit => action matches Some(SetupAction::SendInit(bytes)) && bytes@
                    == seq![0u8, 0u8, 0u8, 2u8, 0u8, 0u8, 0u8, 0u8],
                Setup::Ready => action matches Some(SetupAction::Done),
                _ => action matches Some(SetupAction::ReadResult),
            }
        },
    }
}

/// What is wrong with a control command's result.
pub open spec fn result_fault(result: Option<[u8; 4]>) -> Option<ControlError> {
    match result {
        None => Some(ControlError::Os),
        Some(bytes) => if be_word(bytes@, 0) == 0 {
            None
        } else {
            Some(ControlError::CommandFailed(be_word(bytes@, 0) as u32))
        },
    }
}

/// Setting up sends the four bytes of the command that hands over the data
/// socket, which must go out whole, reads its result, sends the eight bytes of
/// the command that starts the TPM, and reads its result. It goes on only where
/// a step succeeded, and ends at the first that did not, with its reason. An
/// input that does not belong to where it stands changes nothing.
pub proof fn law_setup_steps(setup: &mut Setup, input: SetupInput, action: Option<SetupAction>)
    requires
        call_ensures(Setup::step, (setup, input), action),
    ensures
        match (*old(setup), input) {
            (Setup::Starting, SetupInput::Start) => setup_went(
                *final(setup),
                action,
                Setup::SendingDataFd,
                None,
            ),
            (Setup::SendingDataFd, SetupInput::DataFdSent(sent)) => setup_went(
                *final(setup),
                action,
                Setup::AwaitingDataFd,
                match sent {
                    None => Some(ControlError::Os),
                    Some(n) => if n == 4 {
                        None
                    } else {
                        Some(ControlError::ShortWrite)
                    },
                },
            ),
            (Setup::AwaitingDataFd, SetupInput::Result(result)) => setup_went(
                *final(setup),
                action,
                Setup::SendingInit,
                result_fault(result),
            ),
            (Setup::SendingInit, SetupInput::InitSent(sent)) => setup_went(
                *final(setup),
                action,
                Setup::AwaitingInit,
                if sent {
                    None
                } else {
                    Some(ControlError::Os)
                },
            ),
            (Setup::AwaitingInit, SetupInput::Result(result)) => setup_went(
                *final(setup),
                action,
                Setup::Ready,
                result_fault(result),
            ),
            _ => *final(setup) == *old(setup) && action is None,
        },
{
    lemma_be4(0x10);
    lemma_be4(2);
    lemma_be4(0);
    assert(be_bytes(2, 4) + be_bytes(0, 4) =~= seq![0u8, 0u8, 0u8, 2u8, 0u8, 0u8, 0u8, 0u8]);
    if let SetupInput::Result(Some(bytes)) = input {
        lemma_result(bytes);
    }
}

/// Whether `c` is a hexadecimal digit in lower case.
pub open spec fn is_hex(c: char) -> bool {
    '0' <= c <= '9' || 'a' <= c <= 'f'
}

/// The number that hexadecimal digits spell.
pub open spec fn hex_value(s: Seq<char>) -> int
    decreases s.len(),
{
    if s.len() == 0 {
        0
    } else {
        16 * hex_value(s.drop_last()) + (if s.last() <= '9' {
            s.last() as int - '0' as int
        } else {
            s.last() as int - 'a' as int + 10
        })
    }
}

proof fn lemma_hex(n: nat)
    ensures
        ({
            let s = hex_digits(n);
            &&& s.len() > 0
            &&& forall|i: int| 0 <= i < s.len() ==> is_hex(#[trigger] s[i])
            &&& hex_value(s) == n
            &&& s[0] == '0' ==> n == 0
        }),
    decreases n,
{
    reveal_with_fuel(hex_value, 2);
    let s = hex_digits(n);
    if n < 16 {
        assert(s.drop_last() =~= Seq::<char>::empty());
    } else {
        lemma_hex(n / 16);
        assert(s.drop_last() =~= hex_digits(n / 16));
    }
}

/// What is appended for a number are hexadecimal digits in lower case that spell
/// it, with no zero in front but for the number 0; what stood before stays.
pub proof fn law_hex(text: &mut String, n: u32, i: int)
    requires
        call_ensures(push_hex, (text, n), ()),
    ensures
        ({
            let before = old(text)@;
            let digits = final(text)@.skip(before.len() as int);
            &&& final(text)@ == before + digits
            &&& digits.len() > 0
            &&& 0 <= i < digits.len() ==> is_hex(digits[i])
            &&& hex_value(digits) == n
            &&& digits[0] == '0' ==> n == 0
        }),
{
    let digits = hex_digits(n as nat);
    lemma_hex(n as nat);
    assert(final(text)@.skip(old(text)@.len() as int) =~= digits);
}

/// The text for a control command that failed ends with its result in
/// hexadecimal digits.
pub proof fn law_control_message(result: u32, text: Option<String>)
    requires
        call_ensures(ControlError::message, (&ControlError::CommandFailed(result),), text),
    ensures
        ({
            let front = "swtpm control command failed with result 0x"@;
            text matches Some(t) && t@.len() > front.len() && t@.take(front.len() as int) == front
                && hex_value(t@.skip(front.len() as int)) == result
        }),
{
    let front = "swtpm control command failed with result 0x"@;
    lemma_hex(result as nat);
    if let Some(t) = text {
        assert(t@.take(front.len() as int) =~= front);
        assert(t@.skip(front.len() as int) =~= hex_digits(result as nat));
    }
}

/// An error of the system has the system's kind and text; a short write and a
/// failed command have their own.
pub proof fn law_control_errors(e: ControlError, kind: Option<ErrorKind>, text: Option<String>)
    requires
        call_ensures(ControlError::kind, (&e,), kind),
        call_ensures(ControlError::message, (&e,), text),
    ensures
        e is Os <==> kind is None,
        e is Os <==> text is None,
        e is ShortWrite <==> kind == Some(ErrorKind::WriteZero),
        e is CommandFailed <==> kind == Some(ErrorKind::Other),
        e is ShortWrite ==> text->0@ == "short write sending swtpm SET_DATAFD"@,
{
}

} // verus!

use guest_bridges::error::ErrorKind;
use guest_bridges::swtpm::{
    ControlError, Error, Setup, SetupAction, SetupInput, Swtpm, SwtpmAction, SWTPM_CMD_INIT,
    SWTPM_CMD_SET_DATAFD,
};
use guest_bridges::text::push_hex;
use guest_bridges::tpm::TPM_RC_FAILURE_RESPONSE;

const GET_RANDOM: &[u8] = &[
    0x80, 0x01, // TPM_ST_NO_SESSIONS
    0x00, 0x00, 0x00, 0x0C, // command size
    0x00, 0x00, 0x01, 0x7B, // TPM_CC_GetRandom
    0x00, 0x04, // requested bytes
];
const GET_RANDOM_RESPONSE: &[u8] = &[
    0x80, 0x01, // TPM_ST_NO_SESSIONS
    0x00, 0x00, 0x00, 0x10, // response size
    0x00, 0x00, 0x00, 0x00, // TPM_RC_SUCCESS
    0x00, 0x04, 0xDE, 0xAD, 0xBE, 0xEF,
];

/// Runs a command against a TPM that sends `stream`.
fn execute(tpm: &mut Swtpm, command: &[u8], stream: &[u8]) -> (Vec<u8>, Option<Error>) {
    let mut at = 0;
    let mut action = tpm.execute_command(command);
    loop {
        action = match action {
            SwtpmAction::WriteAll(bytes) => {
                assert_eq!(bytes, command);
                tpm.command_written(Ok(())).unwrap()
            }
            SwtpmAction::ReadExact(n) => {
                let bytes = if at + n <= stream.len() {
                    Ok(stream[at..at + n].to_vec())
                } else {
                    Err("failed to fill whole buffer".to_string())
                };
                at += n;
                tpm.bytes_read(bytes).unwrap()
            }
            SwtpmAction::Reply { response, fault } => return (response, fault),
        }
    }
}

#[test]
fn executes_command() {
    let mut setup = Setup::Starting;
    match setup.step(SetupInput::Start) {
        Some(SetupAction::SendDataFd(bytes)) => {
            assert_eq!(bytes, SWTPM_CMD_SET_DATAFD.to_be_bytes())
        }
        other => panic!("{:?}", other),
    }
    assert!(matches!(
        setup.step(SetupInput::DataFdSent(Some(4))),
        Some(SetupAction::ReadResult)
    ));
    match setup.step(SetupInput::Result(Some(0u32.to_be_bytes()))) {
        Some(SetupAction::SendInit(init)) => {
            assert_eq!(init.len(), 8);
            assert_eq!(
                u32::from_be_bytes(init[..4].try_into().unwrap()),
                SWTPM_CMD_INIT
            );
            assert_eq!(u32::from_be_bytes(init[4..].try_into().unwrap()), 0);
        }
        other => panic!("{:?}", other),
    }
    assert!(matches!(
        setup.step(SetupInput::InitSent(true)),
        Some(SetupAction::ReadResult)
    ));
    assert!(matches!(
        setup.step(SetupInput::Result(Some(0u32.to_be_bytes()))),
        Some(SetupAction::Done)
    ));
    assert_eq!(setup, Setup::Ready);

    let mut tpm = Swtpm::new();
    let (response, fault) = execute(&mut tpm, GET_RANDOM, GET_RANDOM_RESPONSE);
    assert_eq!(response, GET_RANDOM_RESPONSE);
    assert!(fault.is_none());
}

#[test]
fn rejects_invalid_response_size() {
    let mut tpm = Swtpm::new();
    let (response, fault) = execute(
        &mut tpm,
        GET_RANDOM,
        &[0x80, 0x01, 0x00, 0x00, 0x20, 0x00, 0x00, 0x00, 0x00, 0x00],
    );
    assert_eq!(response, TPM_RC_FAILURE_RESPONSE);
    assert!(matches!(fault, Some(Error::InvalidResponseSize(0x2000))));
}

#[test]
fn rejects_failed_control_command() {
    let mut setup = Setup::Starting;
    setup.step(SetupInput::Start);
    setup.step(SetupInput::DataFdSent(Some(4)));
    let error = match setup.step(SetupInput::Result(Some(9u32.to_be_bytes()))) {
        Some(SetupAction::Fail(error)) => error,
        _ => panic!("accepted failed swtpm control command"),
    };
    assert!(error.message().unwrap().contains("result 0x9"));
    assert_eq!(error.kind(), Some(ErrorKind::Other));
    assert_eq!(setup, Setup::Failed);
    assert!(setup.step(SetupInput::InitSent(true)).is_none());
}

#[test]
fn setup_failures_are_named() {
    let mut setup = Setup::SendingDataFd;
    match setup.step(SetupInput::DataFdSent(Some(3))) {
        Some(SetupAction::Fail(error)) => {
            assert_eq!(error, ControlError::ShortWrite);
            assert_eq!(error.kind(), Some(ErrorKind::WriteZero));
            assert_eq!(
                error.message().unwrap(),
                "short write sending swtpm SET_DATAFD"
            );
        }
        other => panic!("{:?}", other),
    }
    for (mut setup, input) in [
        (Setup::SendingDataFd, SetupInput::DataFdSent(None)),
        (Setup::AwaitingDataFd, SetupInput::Result(None)),
        (Setup::SendingInit, SetupInput::InitSent(false)),
        (Setup::AwaitingInit, SetupInput::Result(None)),
    ] {
        match setup.step(input) {
            Some(SetupAction::Fail(error)) => {
                assert_eq!(error, ControlError::Os);
                assert_eq!(error.kind(), None);
                assert_eq!(error.message(), None);
            }
            other => panic!("{:?}", other),
        }
        assert_eq!(setup, Setup::Failed);
    }
    let mut setup = Setup::AwaitingInit;
    assert!(matches!(
        setup.step(SetupInput::Result(Some([0, 0, 1, 0]))),
        Some(SetupAction::Fail(ControlError::CommandFailed(0x100)))
    ));
}

#[test]
fn control_results() {
    assert_eq!(Swtpm::read_control_result([0; 4]), Ok(()));
    assert_eq!(
        Swtpm::read_control_result([0x12, 0x34, 0xab, 0xcd]),
        Err(ControlError::CommandFailed(0x1234_abcd))
    );
    assert_eq!(
        ControlError::CommandFailed(0x1234_abcd).message().unwrap(),
        "swtpm control command failed with result 0x1234abcd"
    );
}

#[test]
fn hexadecimal_digits() {
    for n in [0u32, 9, 10, 15, 16, 0xff, 0x100, 0xdead_beef, u32::MAX] {
        let mut text = String::from("0x");
        push_hex(&mut text, n);
        assert_eq!(text, format!("{:#x}", n));
    }
}

#[test]
fn response_sizes_have_limits() {
    let mut tpm = Swtpm::new();
    let mut shortest = GET_RANDOM_RESPONSE[..10].to_vec();
    shortest[5] = 10;
    assert_eq!(execute(&mut tpm, GET_RANDOM, &shortest).0, shortest);
    shortest[5] = 9;
    assert!(matches!(
        execute(&mut tpm, GET_RANDOM, &shortest).1,
        Some(Error::InvalidResponseSize(9))
    ));
    let mut longest = vec![0; 4096];
    longest[4] = 0x10;
    assert_eq!(execute(&mut tpm, GET_RANDOM, &longest).0, longest);
}

#[test]
fn swtpm_transport_failures_are_answered() {
    let mut tpm = Swtpm::new();
    tpm.execute_command(GET_RANDOM);
    match tpm.command_written(Err("Broken pipe".to_string())) {
        Some(SwtpmAction::Reply { response, fault }) => {
            assert_eq!(response, TPM_RC_FAILURE_RESPONSE);
            assert!(matches!(fault, Some(Error::WriteCommand(text)) if text == "Broken pipe"));
        }
        other => panic!("{:?}", other),
    }
    for len in [0, 7, 10, 15] {
        let (response, fault) = execute(&mut tpm, GET_RANDOM, &GET_RANDOM_RESPONSE[..len]);
        assert_eq!(response, TPM_RC_FAILURE_RESPONSE);
        assert!(matches!(fault, Some(Error::ReadResponse(_))));
    }
    assert_eq!(
        execute(&mut tpm, GET_RANDOM, GET_RANDOM_RESPONSE).0,
        GET_RANDOM_RESPONSE
    );
}

#[test]
fn bodies_of_another_length_do_nothing() {
    let mut tpm = Swtpm::new();
    assert!(tpm.body_read(Ok(Vec::new())).is_none());
    tpm.execute_command(GET_RANDOM);
    tpm.command_written(Ok(()));
    let header: [u8; 10] = GET_RANDOM_RESPONSE[..10].try_into().unwrap();
    assert!(matches!(
        tpm.header_read(Ok(header)),
        Some(SwtpmAction::ReadExact(6))
    ));
    assert!(tpm.body_read(Ok(vec![0; 5])).is_none());
    assert!(tpm.body_read(Ok(vec![0; 6])).is_some());
}

#[test]
fn bytes_go_to_the_step_that_asked_for_them() {
    let mut tpm = Swtpm::new();
    assert!(tpm.bytes_read(Ok(vec![0; 10])).is_none());
    tpm.execute_command(GET_RANDOM);
    assert!(tpm.bytes_read(Ok(vec![0; 10])).is_none());
    tpm.command_written(Ok(()));
    assert!(tpm.bytes_read(Ok(vec![0; 9])).is_none());
    assert!(matches!(
        tpm.bytes_read(Ok(GET_RANDOM_RESPONSE[..10].to_vec())),
        Some(SwtpmAction::ReadExact(6))
    ));
    assert!(tpm.bytes_read(Ok(vec![0; 7])).is_none());
    match tpm.bytes_read(Ok(GET_RANDOM_RESPONSE[10..].to_vec())) {
        Some(SwtpmAction::Reply { response, fault }) => {
            assert_eq!(response, GET_RANDOM_RESPONSE);
            assert!(fault.is_none());
        }
        other => panic!("{:?}", other),
    }
    assert!(tpm.bytes_read(Err("gone".to_string())).is_none());

    // The two steps can also be taken by their own names.
    tpm.execute_command(GET_RANDOM);
    tpm.command_written(Ok(()));
    assert!(matches!(
        tpm.header_read(Err("gone".to_string())),
        Some(SwtpmAction::Reply { response, fault: Some(Error::ReadResponse(text)) })
            if response == TPM_RC_FAILURE_RESPONSE && text == "gone"
    ));
}

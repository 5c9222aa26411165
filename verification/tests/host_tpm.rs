use guest_bridges::host_tpm::{Error, HostTpm, TpmAction};
use guest_bridges::tpm::{failure_response, TPM_BUFSIZE, TPM_RC_FAILURE_RESPONSE};

const GET_RANDOM: &[u8] = &[
    0x80, 0x01, // TPM_ST_NO_SESSIONS
    0x00, 0x00, 0x00, 0x0C, // command size
    0x00, 0x00, 0x01, 0x7B, // TPM_CC_GetRandom
    0x00, 0x04, // requested bytes
];
const GET_RANDOM_RESPONSE: &[u8] = &[
    0x80, 0x01, // TPM_ST_NO_SESSIONS
    0x00, 0x00, 0x00, 0x10, // response size
    0x00, 0x00, 0x00, 0x00, // TPM_RC_SUCCESS
    0x00, 0x04, 0xDE, 0xAD, 0xBE, 0xEF,
];

/// A TPM device that takes commands and gives one response.
struct Device {
    commands: Vec<Vec<u8>>,
    response: Result<Vec<u8>, String>,
    written: Option<Result<usize, String>>,
}

impl Device {
    fn with(response: &[u8]) -> Self {
        Device {
            commands: Vec::new(),
            response: Ok(response.to_vec()),
            written: None,
        }
    }

    fn execute(&mut self, tpm: &mut HostTpm, command: &[u8]) -> (Vec<u8>, Option<Error>) {
        let mut action = tpm.execute_command(command);
        loop {
            action = match action {
                TpmAction::Write(bytes) => {
                    let written = match &self.written {
                        Some(written) => written.clone(),
                        None => Ok(bytes.len()),
                    };
                    self.commands.push(bytes);
                    tpm.command_written(written).unwrap()
                }
                TpmAction::Read(max) => {
                    assert_eq!(max, TPM_BUFSIZE);
                    tpm.response_read(self.response.clone()).unwrap()
                }
                TpmAction::Reply { response, fault } => return (response, fault),
            }
        }
    }
}

#[test]
fn forwards_complete_command() {
    let mut tpm = HostTpm::new();
    let mut device = Device::with(GET_RANDOM_RESPONSE);
    let (response, fault) = device.execute(&mut tpm, GET_RANDOM);
    assert_eq!(response, GET_RANDOM_RESPONSE);
    assert!(fault.is_none());
    assert_eq!(device.commands, [GET_RANDOM]);
}

#[test]
fn rejects_short_response() {
    let mut tpm = HostTpm::new();
    let mut device = Device::with(&GET_RANDOM_RESPONSE[..8]);
    let (response, fault) = device.execute(&mut tpm, GET_RANDOM);
    assert_eq!(response, TPM_RC_FAILURE_RESPONSE);
    assert!(matches!(fault, Some(Error::ShortMessage(8))));
    assert_eq!(device.commands, [GET_RANDOM]);
}

#[test]
fn rejects_malformed_response_length() {
    let mut tpm = HostTpm::new();
    let mut response = GET_RANDOM_RESPONSE.to_vec();
    response[5] = 0x20;
    let mut device = Device::with(&response);
    let (response, fault) = device.execute(&mut tpm, GET_RANDOM);
    assert_eq!(response, TPM_RC_FAILURE_RESPONSE);
    assert!(matches!(
        fault,
        Some(Error::LengthMismatch {
            header: 0x20,
            actual: 0x10
        })
    ));
}

#[test]
fn reports_transport_failure() {
    let mut tpm = HostTpm::new();
    let mut device = Device::with(&[]);
    device.written = Some(Err("Broken pipe".to_string()));
    let (response, fault) = device.execute(&mut tpm, GET_RANDOM);
    assert_eq!(response, TPM_RC_FAILURE_RESPONSE);
    assert!(matches!(fault, Some(Error::WriteCommand(text)) if text == "Broken pipe"));
}

#[test]
fn rejects_malformed_command_length() {
    let mut tpm = HostTpm::new();
    let mut device = Device::with(GET_RANDOM_RESPONSE);
    let mut command = GET_RANDOM.to_vec();
    command[5] = 0x10;
    let (response, fault) = device.execute(&mut tpm, &command);
    assert_eq!(response, TPM_RC_FAILURE_RESPONSE);
    assert!(matches!(
        fault,
        Some(Error::LengthMismatch {
            header: 0x10,
            actual: 0x0c
        })
    ));
    assert!(device.commands.is_empty());
}

#[test]
fn read_failures_and_short_writes_are_answered() {
    let mut tpm = HostTpm::new();
    let mut device = Device::with(&[]);
    device.response = Err("gone".to_string());
    let (response, fault) = device.execute(&mut tpm, GET_RANDOM);
    assert_eq!(response, failure_response());
    assert!(matches!(fault, Some(Error::ReadResponse(text)) if text == "gone"));

    device.written = Some(Ok(5));
    let (response, fault) = device.execute(&mut tpm, GET_RANDOM);
    assert_eq!(response, failure_response());
    assert!(matches!(
        fault,
        Some(Error::ShortWrite {
            expected: 12,
            actual: 5
        })
    ));

    // The exchange is ready for the next command.
    let mut device = Device::with(GET_RANDOM_RESPONSE);
    assert_eq!(
        device.execute(&mut tpm, GET_RANDOM).0,
        GET_RANDOM_RESPONSE
    );
}

#[test]
fn headers_are_judged() {
    assert!(matches!(
        HostTpm::validate_header(&GET_RANDOM[..9]),
        Err(Error::ShortMessage(9))
    ));
    let mut message = GET_RANDOM.to_vec();
    assert!(matches!(HostTpm::validate_header(&message), Ok(12)));
    message[1] = 2;
    assert!(matches!(HostTpm::validate_header(&message), Ok(12)));
    message[1] = 3;
    assert!(matches!(
        HostTpm::validate_header(&message),
        Err(Error::InvalidTag(0x8003))
    ));
    message[1] = 1;
    message[5] = 9;
    assert!(matches!(
        HostTpm::validate_header(&message),
        Err(Error::InvalidMessageSize(9))
    ));
    message[4] = 0x10;
    message[5] = 0;
    assert!(matches!(HostTpm::validate_header(&message), Ok(4096)));
    message[5] = 1;
    assert!(matches!(
        HostTpm::validate_header(&message),
        Err(Error::InvalidMessageSize(4097))
    ));
}

#[test]
fn failure_response_is_well_formed() {
    assert!(HostTpm::validate_message(&TPM_RC_FAILURE_RESPONSE).is_ok());
    assert!(HostTpm::validate_message(GET_RANDOM_RESPONSE).is_ok());
}

#[test]
fn stray_results_do_nothing() {
    let mut tpm = HostTpm::new();
    assert!(tpm.command_written(Ok(12)).is_none());
    assert!(tpm.response_read(Ok(Vec::new())).is_none());
    tpm.execute_command(GET_RANDOM);
    assert!(tpm.response_read(Ok(Vec::new())).is_none());
    assert!(matches!(
        tpm.command_written(Ok(12)),
        Some(TpmAction::Read(TPM_BUFSIZE))
    ));
}

use clipto::{copy_outcome, paste_outcome, ClientError, Response};

fn daemon_error(message: &str) -> ClientError {
    ClientError::Daemon { message: String::from(message) }
}

#[test]
fn copy_succeeds_only_on_stored() {
    assert_eq!(copy_outcome(Response::Stored), Ok(()));
    assert_eq!(
        copy_outcome(Response::Error { message: String::from("encryption failed") }),
        Err(daemon_error("encryption failed"))
    );
    assert_eq!(
        copy_outcome(Response::Payload { data: vec![1] }),
        Err(ClientError::UnexpectedResponse)
    );
}

#[test]
fn paste_succeeds_only_on_payload() {
    assert_eq!(paste_outcome(Response::Payload { data: vec![0, 255, 10] }), Ok(vec![0, 255, 10]));
    assert_eq!(paste_outcome(Response::Payload { data: Vec::new() }), Ok(Vec::new()));
    assert_eq!(
        paste_outcome(Response::Error { message: String::from("clipboard is empty") }),
        Err(daemon_error("clipboard is empty"))
    );
    assert_eq!(paste_outcome(Response::Stored), Err(ClientError::UnexpectedResponse));
}

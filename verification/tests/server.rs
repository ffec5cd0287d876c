use clipto::codec::{decode_response, encode_request};
use clipto::frame::{read_frame, MAX_FRAME_LEN};
use clipto::{
    handle_request, handle_request_drawn, serve, CopySource, ProtocolError, Request, Response, State,
};

fn fresh_state() -> State {
    State::new(&[0x42u8; 32]).expect("a 32-byte key is accepted")
}

fn error(message: &str) -> Response {
    Response::Error { message: String::from(message) }
}

#[test]
fn copy_then_paste_then_restart() {
    let mut state = fresh_state();
    let copied = handle_request(
        &mut state,
        Request::Copy { payload: b"hello".to_vec(), source: CopySource::User },
        false,
    );
    assert_eq!(copied.response, Response::Stored);
    assert_eq!(copied.forward, None);

    let pasted = handle_request(&mut state, Request::Paste, false);
    assert_eq!(pasted.response, Response::Payload { data: b"hello".to_vec() });
    assert_eq!(pasted.forward, None);

    let mut restarted = fresh_state();
    let after_restart = handle_request(&mut restarted, Request::Paste, false);
    assert_eq!(after_restart.response, error("clipboard is empty"));
}

#[test]
fn paste_before_any_copy_is_the_empty_error() {
    let mut state = fresh_state();
    let reply = handle_request(&mut state, Request::Paste, true);
    assert_eq!(reply.response, error("clipboard is empty"));
    assert_eq!(reply.forward, None);
    assert!(state.entry().is_none());
}

#[test]
fn compositor_copy_is_stored_but_never_forwarded() {
    for active in [false, true] {
        let mut state = fresh_state();
        let reply = handle_request(
            &mut state,
            Request::Copy { payload: b"from the compositor".to_vec(), source: CopySource::Wayland },
            active,
        );
        assert_eq!(reply.response, Response::Stored);
        assert_eq!(reply.forward, None);
        assert_eq!(state.load(), Ok(b"from the compositor".to_vec()));
    }
}

#[test]
fn user_copy_is_forwarded_while_the_compositor_is_active() {
    let mut state = fresh_state();
    let reply = handle_request(
        &mut state,
        Request::Copy { payload: b"from the user".to_vec(), source: CopySource::User },
        true,
    );
    assert_eq!(reply.response, Response::Stored);
    assert_eq!(reply.forward, Some(b"from the user".to_vec()));
    assert_eq!(state.load(), Ok(b"from the user".to_vec()));
}

#[test]
fn user_copy_is_not_forwarded_while_the_compositor_is_away() {
    let mut state = fresh_state();
    let reply = handle_request(
        &mut state,
        Request::Copy { payload: b"tty only".to_vec(), source: CopySource::User },
        false,
    );
    assert_eq!(reply.response, Response::Stored);
    assert_eq!(reply.forward, None);
    assert_eq!(state.load(), Ok(b"tty only".to_vec()));
}

#[test]
fn paste_is_never_forwarded_and_changes_nothing() {
    let mut state = fresh_state();
    assert_eq!(state.store_with_nonce([1u8; 12], b"kept"), Ok(()));
    let before = state.entry().expect("an entry is stored").ciphertext().to_vec();
    let reply = handle_request(&mut state, Request::Paste, true);
    assert_eq!(reply.response, Response::Payload { data: b"kept".to_vec() });
    assert_eq!(reply.forward, None);
    let entry = state.entry().expect("the entry is kept");
    assert_eq!(entry.nonce(), [1u8; 12]);
    assert_eq!(entry.ciphertext(), before.as_slice());
}

#[test]
fn last_copy_wins() {
    let mut state = fresh_state();
    let payloads: [&[u8]; 4] = [b"one", b"", b"a much longer third payload", b"four"];
    for payload in payloads {
        let reply = handle_request(
            &mut state,
            Request::Copy { payload: payload.to_vec(), source: CopySource::User },
            false,
        );
        assert_eq!(reply.response, Response::Stored);
        let pasted = handle_request(&mut state, Request::Paste, false);
        assert_eq!(pasted.response, Response::Payload { data: payload.to_vec() });
    }
}

#[test]
fn undecryptable_entry_is_reported_to_the_client() {
    let mut state = fresh_state();
    assert_eq!(state.install([0u8; 12], Some(vec![0u8; 40])), Ok(()));
    let reply = handle_request(&mut state, Request::Paste, false);
    assert_eq!(reply.response, error("decryption failed"));
    let again = handle_request(
        &mut state,
        Request::Copy { payload: b"recovered".to_vec(), source: CopySource::User },
        false,
    );
    assert_eq!(again.response, Response::Stored);
    assert_eq!(handle_request(&mut state, Request::Paste, false).response, Response::Payload {
        data: b"recovered".to_vec()
    });
}

#[test]
fn serve_answers_a_copy_with_a_framed_response() {
    let mut state = fresh_state();
    let body = encode_request(&Request::Copy { payload: b"hello".to_vec(), source: CopySource::User });
    let served = serve(&mut state, &body, true).expect("the body is a request");
    assert_eq!(served.frame, vec![4, 0, 0, 0, 0, 0, 0, 0]);
    assert_eq!(served.forward, Some(b"hello".to_vec()));

    let paste = encode_request(&Request::Paste);
    let served = serve(&mut state, &paste, true).expect("the body is a request");
    assert_eq!(served.forward, None);
    let (response_body, used) = read_frame(&served.frame).expect("the frame is whole");
    assert_eq!(used, served.frame.len());
    assert_eq!(decode_response(&response_body), Ok(Response::Payload { data: b"hello".to_vec() }));
}

#[test]
fn serve_answers_a_paste_on_an_empty_store_with_an_error_frame() {
    let mut state = fresh_state();
    let served = serve(&mut state, &[1, 0, 0, 0], false).expect("the body is a request");
    let (response_body, _) = read_frame(&served.frame).expect("the frame is whole");
    assert_eq!(decode_response(&response_body), Ok(error("clipboard is empty")));
}

#[test]
fn serve_refuses_a_malformed_body_and_keeps_the_store() {
    let mut state = fresh_state();
    assert_eq!(state.store_with_nonce([2u8; 12], b"kept"), Ok(()));
    for body in [&[][..], &[9, 0, 0, 0][..], &[1, 0, 0, 0, 0][..], &[0, 0, 0, 0, 1][..]] {
        assert!(matches!(serve(&mut state, body, true), Err(ProtocolError::Malformed)));
    }
    assert_eq!(state.entry().expect("the entry is kept").nonce(), [2u8; 12]);
    assert_eq!(state.load(), Ok(b"kept".to_vec()));
}

#[test]
fn serve_cannot_frame_a_payload_longer_than_a_frame() {
    let mut state = fresh_state();
    let payload: Vec<u8> = vec![1u8; MAX_FRAME_LEN];
    assert_eq!(state.store(&payload), Ok(()));
    assert!(matches!(serve(&mut state, &[1, 0, 0, 0], false), Err(ProtocolError::Oversized)));
    assert!(state.load() == Ok(payload));
}

#[test]
fn interleaved_pastes_see_whole_entries_only() {
    let mut state = fresh_state();
    let mut latest: Option<Vec<u8>> = None;
    let mut seed: u32 = 12345;
    for round in 0..400u32 {
        seed = seed.wrapping_mul(1_103_515_245).wrapping_add(12_345);
        if (seed >> 16) % 3 == 0 {
            let writer: u8 = ((seed >> 8) % 5) as u8;
            let payload: Vec<u8> = vec![writer; 1000 + usize::from(writer) + (round as usize % 7)];
            let source = if round % 2 == 0 { CopySource::User } else { CopySource::Wayland };
            let reply = handle_request(&mut state, Request::Copy { payload: payload.clone(), source }, false);
            assert_eq!(reply.response, Response::Stored);
            latest = Some(payload);
        } else {
            let reply = handle_request(&mut state, Request::Paste, false);
            match &latest {
                Some(payload) => assert_eq!(reply.response, Response::Payload { data: payload.clone() }),
                None => assert_eq!(reply.response, error("clipboard is empty")),
            }
        }
    }
    assert!(latest.is_some());
}

#[test]
fn copy_without_a_nonce_is_refused_and_never_forwarded() {
    let mut state = fresh_state();
    assert_eq!(state.store_with_nonce([3u8; 12], b"kept"), Ok(()));
    for source in [CopySource::User, CopySource::Wayland] {
        let reply = handle_request_drawn(
            &mut state,
            Request::Copy { payload: b"not stored".to_vec(), source },
            true,
            None,
        );
        assert_eq!(reply.response, error("encryption failed"));
        assert_eq!(reply.forward, None);
    }
    assert_eq!(state.entry().expect("the entry is kept").nonce(), [3u8; 12]);
    assert_eq!(state.load(), Ok(b"kept".to_vec()));
}

#[test]
fn copy_with_a_nonce_is_stored_under_it() {
    let mut state = fresh_state();
    let reply = handle_request_drawn(
        &mut state,
        Request::Copy { payload: b"stored".to_vec(), source: CopySource::User },
        true,
        Some([6u8; 12]),
    );
    assert_eq!(reply.response, Response::Stored);
    assert_eq!(reply.forward, Some(b"stored".to_vec()));
    assert_eq!(state.entry().expect("an entry is stored").nonce(), [6u8; 12]);

    let pasted = handle_request_drawn(&mut state, Request::Paste, true, Some([7u8; 12]));
    assert_eq!(pasted.response, Response::Payload { data: b"stored".to_vec() });
    assert_eq!(pasted.forward, None);
    assert_eq!(state.entry().expect("the entry is kept").nonce(), [6u8; 12]);
}

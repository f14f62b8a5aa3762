use sipdialog::client_dialog::{ClientInviteDialog, Dialog, InboundAction, InviteAction};
use sipdialog::dialog::{Credential, DialogInner, DialogState, RequestAction, TransactionRole};
use sipdialog::message::{
    Header, HeaderKind, Headers, Method, Request, Response, SipMessage, SipUri, Version,
};
use sipdialog::rsip_ext::extract_uri_from_contact;
use sipdialog::{DialogId, Error};

fn invite_request() -> Request {
    Request {
        method: Method::Invite,
        uri: SipUri { base: "sip:bob@example.com".to_string(), params: vec![] },
        headers: Headers {
            items: vec![
                Header::Via("SIP/2.0/UDP client.example.com;branch=z9hG4bK1".to_string()),
                Header::CallId("call-1".to_string()),
                Header::From("<sip:alice@example.com>;tag=ft1".to_string()),
                Header::To("<sip:bob@example.com>".to_string()),
                Header::CSeq(1, Method::Invite),
            ],
        },
        body: vec![],
        version: Version::V2,
    }
}

fn response_with(status: u16, to: &str) -> Response {
    Response {
        status_code: status,
        headers: Headers {
            items: vec![
                Header::Via("SIP/2.0/UDP client.example.com;branch=z9hG4bK1".to_string()),
                Header::CallId("call-1".to_string()),
                Header::From("<sip:alice@example.com>;tag=ft1".to_string()),
                Header::To(to.to_string()),
                Header::CSeq(1, Method::Invite),
            ],
        },
        body: vec![],
        version: Version::V2,
    }
}

fn client_dialog(credential: Option<Credential>) -> ClientInviteDialog {
    let id = DialogId {
        call_id: "call-1".to_string(),
        from_tag: "ft1".to_string(),
        to_tag: "".to_string(),
    };
    let inner = DialogInner::new(
        TransactionRole::Client,
        id,
        invite_request(),
        "test-agent".to_string(),
        credential,
        None,
    )
    .unwrap();
    ClientInviteDialog { inner }
}

fn state_name(s: &DialogState) -> &'static str {
    match s {
        DialogState::Calling(_) => "Calling",
        DialogState::Trying(_) => "Trying",
        DialogState::Early(_, _) => "Early",
        DialogState::WaitAck(_, _) => "WaitAck",
        DialogState::Confirmed(_) => "Confirmed",
        DialogState::Updated(_, _) => "Updated",
        DialogState::Notify(_, _) => "Notify",
        DialogState::Info(_, _) => "Info",
        DialogState::Terminated(_, _) => "Terminated",
    }
}

fn observed_names(d: &ClientInviteDialog) -> Vec<&'static str> {
    d.inner.observations.iter().map(state_name).collect()
}

#[test]
fn test_rsip_headers_ext() {
    let mut headers = Headers {
        items: vec![
            Header::Via("SIP/2.0/TCP".to_string()),
            Header::Via("SIP/2.0/UDP".to_string()),
            Header::Via("SIP/2.0/WSS".to_string()),
        ],
    };
    let via = Header::Via("SIP/2.0/TLS".to_string());
    headers.push_front(via);
    assert_eq!(headers.items.len(), 4);

    headers.pop_first(HeaderKind::Via);
    assert_eq!(headers.items.len(), 3);

    assert_eq!(
        headers.items,
        vec![
            Header::Via("SIP/2.0/TCP".to_string()),
            Header::Via("SIP/2.0/UDP".to_string()),
            Header::Via("SIP/2.0/WSS".to_string()),
        ]
    );
}

#[test]
fn happy_invite_confirms_and_acks() {
    let mut d = client_dialog(None);
    let mut drv = d.process_invite_start();

    let r100 = SipMessage::Response(response_with(100, "<sip:bob@example.com>"));
    assert!(matches!(
        d.process_invite_step(&mut drv, Some(&r100)).unwrap(),
        InviteAction::Continue
    ));
    let r180 = SipMessage::Response(response_with(180, "<sip:bob@example.com>"));
    assert!(matches!(
        d.process_invite_step(&mut drv, Some(&r180)).unwrap(),
        InviteAction::Continue
    ));
    let r200 = SipMessage::Response(response_with(200, "<sip:bob@example.com>;tag=xyz"));
    let action = d.process_invite_step(&mut drv, Some(&r200)).unwrap();
    let ack = match action {
        InviteAction::SendAck(ack) => ack,
        _ => panic!("expected an ACK"),
    };
    assert_eq!(ack.method, Method::Ack);
    assert_eq!(ack.uri.base, "sip:bob@example.com");
    assert_eq!(ack.headers.items.len(), 5);
    assert!(ack.body.is_empty());
    assert!(drv.done);

    let (id, final_response) = ClientInviteDialog::process_invite_result(drv);
    assert_eq!(id.to_tag, "xyz");
    assert_eq!(final_response.unwrap().status_code, 200);
    assert_eq!(
        observed_names(&d),
        vec!["Calling", "Trying", "Early", "Confirmed"]
    );
    assert!(d.inner.state.is_confirmed());
}

#[test]
fn auth_once_invite_retries_with_next_cseq() {
    let cred = Credential { username: "alice".to_string(), password: "SECRET-REDACTED".to_string() };
    let mut d = client_dialog(Some(cred));
    let mut drv = d.process_invite_start();

    let r401 = SipMessage::Response(response_with(401, "<sip:bob@example.com>"));
    let action = d.process_invite_step(&mut drv, Some(&r401)).unwrap();
    match action {
        InviteAction::Authenticate(seq) => assert_eq!(seq, 2),
        _ => panic!("expected an authentication retry"),
    }
    assert_eq!(d.inner.get_local_seq(), 2);

    let r200 = SipMessage::Response(response_with(200, "<sip:bob@example.com>;tag=xyz"));
    let action = d.process_invite_step(&mut drv, Some(&r200)).unwrap();
    assert!(matches!(action, InviteAction::SendAck(_)));
    assert!(d.inner.state.is_confirmed());
}

#[test]
fn auth_twice_terminates_without_ack() {
    let cred = Credential { username: "alice".to_string(), password: "SECRET-REDACTED".to_string() };
    let mut d = client_dialog(Some(cred));
    let mut drv = d.process_invite_start();

    let r401 = SipMessage::Response(response_with(401, "<sip:bob@example.com>"));
    assert!(matches!(
        d.process_invite_step(&mut drv, Some(&r401)).unwrap(),
        InviteAction::Authenticate(_)
    ));
    let r401b = SipMessage::Response(response_with(401, "<sip:bob@example.com>"));
    assert!(matches!(
        d.process_invite_step(&mut drv, Some(&r401b)).unwrap(),
        InviteAction::Stop
    ));
    let (_, final_response) = ClientInviteDialog::process_invite_result(drv);
    assert!(final_response.is_none());
    match &d.inner.state {
        DialogState::Terminated(_, code) => assert_eq!(*code, Some(401)),
        other => panic!("expected a terminated dialog, got {}", state_name(other)),
    }
}

#[test]
fn cancel_reuses_the_invite_cseq() {
    let d = client_dialog(None);
    let before = d.inner.get_local_seq();
    let cancel = d.cancel().unwrap();
    assert_eq!(cancel.method, Method::Cancel);
    let cseq = cancel.headers.first_cseq().unwrap();
    assert_eq!(cseq.0, 1);
    assert!(cancel.body.is_empty());
    assert_eq!(d.inner.get_local_seq(), before);
}

#[test]
fn stale_bye_is_rejected_with_500() {
    let mut d = client_dialog(None);
    d.inner.state = DialogState::Confirmed(d.id());
    d.inner.remote_seq = 5;

    let mut bye = invite_request();
    bye.method = Method::Bye;
    bye.headers.set_first_cseq_seq(4);
    let action = d.handle(&bye).unwrap();
    assert!(matches!(action, InboundAction::Reply(500)));
    assert_eq!(d.inner.remote_seq, 5);
    assert!(d.inner.state.is_confirmed());
}

#[test]
fn inbound_bye_terminates_and_replies_200() {
    let mut d = client_dialog(None);
    d.inner.state = DialogState::Confirmed(d.id());
    d.inner.remote_seq = 5;

    let mut bye = invite_request();
    bye.method = Method::Bye;
    bye.headers.set_first_cseq_seq(6);
    let action = d.handle(&bye).unwrap();
    assert!(matches!(action, InboundAction::Reply(200)));
    assert_eq!(d.inner.remote_seq, 6);
    assert!(matches!(d.inner.state, DialogState::Terminated(_, None)));
}

#[test]
fn inbound_bad_method_is_a_dialog_error() {
    let mut d = client_dialog(None);
    d.inner.state = DialogState::Confirmed(d.id());
    let mut opts = invite_request();
    opts.method = Method::Options;
    opts.headers.set_first_cseq_seq(2);
    match d.handle(&opts) {
        Err(Error::DialogError(_, id)) => assert_eq!(id.call_id, "call-1"),
        other => panic!("expected a dialog error, got {:?}", other.is_ok()),
    }
}

#[test]
fn bye_builds_the_expected_request() {
    let mut d = client_dialog(None);
    d.inner.state = DialogState::Confirmed(d.id());
    d.inner.route_set = vec!["<sip:proxy.example.com;lr>".to_string()];
    d.inner.local_contact = Some(SipUri { base: "sip:alice@client.example.com".to_string(), params: vec![] });

    let via = "SIP/2.0/UDP client.example.com;branch=z9hG4bK2".to_string();
    let bye = d.bye(via.clone()).unwrap();
    assert_eq!(bye.method, Method::Bye);

    let vias: Vec<_> = bye
        .headers
        .items
        .iter()
        .filter(|h| matches!(h, Header::Via(_)))
        .collect();
    assert_eq!(vias.len(), 1);
    assert_eq!(vias[0], &Header::Via(via));

    let routes: Vec<_> = bye
        .headers
        .items
        .iter()
        .filter_map(|h| match h {
            Header::Route(r) => Some(r.clone()),
            _ => None,
        })
        .collect();
    assert_eq!(routes, vec!["<sip:proxy.example.com;lr>".to_string()]);
    assert!(bye
        .headers
        .items
        .iter()
        .any(|h| matches!(h, Header::MaxForwards(70))));
    assert!(bye
        .headers
        .items
        .iter()
        .any(|h| matches!(h, Header::Contact(c) if c == "sip:alice@client.example.com")));
    let cseq = bye.headers.first_cseq().unwrap();
    assert_eq!(cseq, (2, Method::Bye));

    let (req, destination, mut drv) = d.inner.do_request_start(bye);
    assert_eq!(destination, Some("<sip:proxy.example.com;lr>".to_string()));
    assert!(!req.headers.items.iter().any(|h| matches!(h, Header::Route(_))));

    let r200 = SipMessage::Response(response_with(200, "<sip:bob@example.com>;tag=xyz"));
    let action = d.inner.do_request_step(&mut drv, Some(&r200));
    assert!(matches!(action, RequestAction::Stop));
    let final_response = drv.final_response.unwrap();
    assert_eq!(final_response.status_code, 200);
    d.bye_finish(Some(&final_response));
    match &d.inner.state {
        DialogState::Terminated(_, code) => assert_eq!(*code, Some(200)),
        other => panic!("expected a terminated dialog, got {}", state_name(other)),
    }
}

#[test]
fn local_seq_strictly_increases_across_requests() {
    let mut d = client_dialog(None);
    let via = "SIP/2.0/UDP c;branch=1".to_string();
    let first = d.inner.make_request(Method::Info, None, via.clone(), None, None);
    let second = d.inner.make_request(Method::Info, None, via, None, None);
    let c1 = first.headers.first_cseq().unwrap().0;
    let c2 = second.headers.first_cseq().unwrap().0;
    assert_eq!((c1, c2), (2, 3));
    assert!(c1 < c2);
}

#[test]
fn remote_tag_is_set_at_most_once() {
    let mut d = client_dialog(None);
    assert_eq!(d.inner.id.to_tag, "");
    d.inner.update_remote_tag("xyz").unwrap();
    assert_eq!(d.inner.id.to_tag, "xyz");
    assert!(d.inner.to.contains("tag=xyz"));

    d.inner.update_remote_tag("other").unwrap();
    assert_eq!(d.inner.id.to_tag, "xyz");
    assert!(d.inner.to.contains("tag=xyz"));
    assert!(!d.inner.to.contains("tag=other"));
}

#[test]
fn every_stored_state_was_observed_first() {
    let mut d = client_dialog(None);
    d.inner.transition(DialogState::Trying(d.id()));
    assert_eq!(state_name(&d.inner.state), "Trying");
    assert_eq!(
        state_name(d.inner.observations.last().unwrap()),
        "Trying"
    );
}

#[test]
fn no_observation_revives_a_terminated_dialog() {
    let mut d = client_dialog(None);
    d.inner.transition(DialogState::Terminated(d.id(), Some(487)));
    let observed = d.inner.observations.len();
    d.inner.transition(DialogState::Confirmed(d.id()));
    d.inner.transition(DialogState::Trying(d.id()));
    assert_eq!(d.inner.observations.len(), observed);
    assert!(matches!(d.inner.state, DialogState::Terminated(_, Some(487))));
}

#[test]
fn side_channel_info_never_overwrites_state() {
    let mut d = client_dialog(None);
    d.inner.state = DialogState::Confirmed(d.id());
    let via = "SIP/2.0/UDP c;branch=2".to_string();
    let info = d.info(via).unwrap();
    assert_eq!(info.method, Method::Info);
    d.info_finish(info);
    assert!(d.inner.state.is_confirmed());
    assert_eq!(state_name(d.inner.observations.last().unwrap()), "Info");
}

#[test]
fn reinvite_keeps_the_dialog_confirmed() {
    let mut d = client_dialog(None);
    assert!(d.reinvite("SIP/2.0/UDP c;branch=3".to_string()).is_none());
    d.inner.state = DialogState::Confirmed(d.id());
    let req = d.reinvite("SIP/2.0/UDP c;branch=3".to_string()).unwrap();
    assert_eq!(req.method, Method::Invite);

    let (_, _, mut drv) = d.inner.do_request_start(req);
    let r200 = SipMessage::Response(response_with(200, "<sip:bob@example.com>;tag=xyz"));
    assert!(matches!(
        d.inner.do_request_step(&mut drv, Some(&r200)),
        RequestAction::Stop
    ));
    assert!(d.inner.state.is_confirmed());
}

#[test]
fn cancel_auth_retry_reuses_cseq() {
    let cred = Credential { username: "alice".to_string(), password: "SECRET-REDACTED".to_string() };
    let mut d = client_dialog(Some(cred));
    let cancel = d.cancel().unwrap();
    let (_, _, mut drv) = d.inner.do_request_start(cancel);
    let r401 = SipMessage::Response(response_with(401, "<sip:bob@example.com>"));
    match d.inner.do_request_step(&mut drv, Some(&r401)) {
        RequestAction::Authenticate(seq) => assert_eq!(seq, 1),
        _ => panic!("expected an authentication retry"),
    }
    assert_eq!(d.inner.get_local_seq(), 1);
}

#[test]
fn extract_contact_keeps_only_transport() {
    let uri = extract_uri_from_contact("Bob <sip:bob@example.com;user=phone;transport=tcp>")
        .unwrap();
    assert_eq!(uri.base, "sip:bob@example.com");
    assert_eq!(uri.params.len(), 1);
    assert!(uri.params[0].transport);
    assert_eq!(uri.params[0].text, ";transport=TCP");
    assert_eq!(uri.to_text(), "sip:bob@example.com;transport=TCP");
}

#[test]
fn extract_contact_without_uri_fails() {
    match extract_uri_from_contact("") {
        Err(Error::ParseError(_)) => {}
        _ => panic!("expected a parse error"),
    }
}

#[test]
fn extract_contact_falls_back_to_angle_brackets() {
    let uri = extract_uri_from_contact("Alice <sip:carol@example.com").unwrap();
    assert_eq!(uri.base, "sip:carol@example.com");
    assert!(uri.params.is_empty());
}

#[test]
fn remote_counter_advances_independently() {
    let mut d = client_dialog(None);
    assert_eq!(d.inner.remote_seq, 0);
    assert_eq!(d.inner.increment_remove_seq(), 1);
    assert_eq!(d.inner.increment_remove_seq(), 2);
    assert_eq!(d.inner.get_local_seq(), 1);
    assert_eq!(d.inner.state.name(), "Calling");
}

#[test]
fn dialog_id_reads_tags_off_a_request() {
    let mut req = invite_request();
    req.headers = Headers {
        items: vec![
            Header::CallId("call-9".to_string()),
            Header::From("<sip:alice@example.com>;tag=ft9".to_string()),
            Header::To("<sip:bob@example.com>;tag=tt9".to_string()),
        ],
    };
    let id = DialogId::from_request(&req).unwrap();
    assert_eq!(id.call_id, "call-9");
    assert_eq!(id.from_tag, "ft9");
    assert_eq!(id.to_tag, "tt9");
    assert!(id == DialogId::from_request(&req).unwrap());
    assert!(
        id != DialogId {
            call_id: "call-9".to_string(),
            from_tag: "ft9".to_string(),
            to_tag: "".to_string(),
        }
    );

    let mut missing = invite_request();
    missing.headers = Headers { items: vec![Header::To("<sip:bob@example.com>".to_string())] };
    match DialogId::from_request(&missing) {
        Err(Error::ParseError(_)) => {}
        _ => panic!("expected a parse error"),
    }
}

#[test]
fn make_response_clones_and_injects_tag() {
    let d = client_dialog(None);
    let req = invite_request();
    let resp = d.inner.make_response(&req, 180, None, Some(vec![1, 2, 3]));
    assert_eq!(resp.status_code, 180);
    assert_eq!(resp.body, vec![1, 2, 3]);
    assert!(resp
        .headers
        .items
        .iter()
        .any(|h| matches!(h, Header::ContentLength(3))));
    assert!(resp
        .headers
        .items
        .iter()
        .any(|h| matches!(h, Header::UserAgent(ua) if ua == "test-agent")));
    let to = resp
        .headers
        .items
        .iter()
        .find_map(|h| match h {
            Header::To(v) => Some(v.clone()),
            _ => None,
        })
        .unwrap();
    assert!(to.contains("tag="));
}

#[test]
fn dialog_enum_dispatches_to_the_client_side() {
    let d = client_dialog(None);
    let mut dialog = Dialog::ClientInvite(d);
    assert_eq!(dialog.id().call_id, "call-1");
    let mut bye = invite_request();
    bye.method = Method::Bye;
    bye.headers.set_first_cseq_seq(2);
    let action = dialog.handle(&bye).unwrap();
    assert!(matches!(action, InboundAction::Ignore));
}

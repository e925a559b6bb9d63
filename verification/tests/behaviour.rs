use lanclip::key_store::{join_path, read_action, write_uses_file, KeyringRead, KeyringWrite, ReadAction};
use lanclip::clipboard::poll_step;
use lanclip::discovery::{apply_browse_event, BrowseEvent, BrowseOutcome, FullnameIds};
use lanclip::clipboard::{
    clip_from_clipboard, content_hash, handle_local_clipboard, normalized_text, strip_html,
    write_plan, write_remote_clipboard, ClipContent, EchoGuard, WriteError, WritePlan,
};
use lanclip::commands::{
    accept_content, apply_settings_update, content_view, device_views, history_views, item_view,
    settings_view, stable_desc_order, SettingsError, SettingsView,
};
use lanclip::discovery::{
    addr_text, full_service_name, host_name, instance_name, pick_ip, sanitize_label, IpAddress, Peer,
    PeerAddr, PeerTable,
};
use lanclip::identity::{
    default_device_name, device_id_from_public_key, sanitize_ascii, seed_from_bytes, stored_certificate,
    Identity, IdentityError,
};
use lanclip::key_store::SecureStore;
use lanclip::notification::{popup_position, MonitorArea};
use lanclip::protocol::Message;
use lanclip::recent::TimedKeys;
use lanclip::state::{with_default_name, Settings};
use lanclip::storage::{expiry_time, list_filters, max_items_kept, retention_cutoff, ClipboardItem, DeviceRecord, MemHistory, StoredContent};
use lanclip::transport::{
    accept_incoming, answer_challenge, check_auth, final_content_type, first_frame_action, incoming_item,
    incoming_stored_content, make_preview, pairing_outcome, pairing_reply_from, pending_alive,
    pending_pairing, pinned_cert_matches, push_targets, receive_seen_recently, record_from_pending,
    verifying_key_from, AuthError, FirstFrame, PairingReply,
};
use lanclip::tray::{sync_pause_check, toggle_watch};

fn expected_hash(kind: &str, text: &str) -> String {
    let mut input = kind.as_bytes().to_vec();
    input.push(0);
    input.extend_from_slice(text.as_bytes());
    hex::encode(blake3::hash(&input).as_bytes())
}

fn device(id: &str, name: &str) -> DeviceRecord {
    DeviceRecord {
        id: id.into(),
        name: name.into(),
        public_key: vec![1; 32],
        cert_der: vec![2; 4],
        send_enabled: true,
        receive_enabled: true,
        last_seen_at: None,
        created_at: 1,
    }
}

fn item(id: &str, hash: &str, created_at: i64) -> ClipboardItem {
    ClipboardItem {
        id: id.into(),
        source_device_id: "dev".into(),
        source_device_name: "Dev".into(),
        content_type: "text".into(),
        preview: format!("preview {id}"),
        content_hash: hash.into(),
        encrypted_content: vec![9, 9],
        content_size: 2,
        status: "pending".into(),
        created_at,
        expires_at: None,
    }
}

fn push(msg_id: &str, sender: &str, content: &[u8], alt: Option<&str>, kind: &str) -> Message {
    Message::ClipboardPush {
        msg_id: msg_id.into(),
        sender_id: sender.into(),
        content_type: kind.into(),
        content: content.to_vec(),
        alt_text: alt.map(|s| s.to_string()),
        content_hash: String::new(),
        timestamp_ms: 0,
    }
}

#[test]
fn normalizes_crlf() {
    assert_eq!(normalized_text("a\r\nb\r\r\nc\n"), "a\nb\r\nc\n");
    assert_eq!(normalized_text(""), "");
}

#[test]
fn content_hash_matches_blake3_hex() {
    let h = content_hash("text", "hello");
    assert_eq!(h, expected_hash("text", "hello"));
    assert_eq!(h.len(), 64);
    assert_ne!(h, content_hash("html", "hello"));
}

#[test]
fn strips_html() {
    assert_eq!(strip_html("<p>Hello <b>World</b></p>\n<br/>  x "), "Hello World x");
    assert_eq!(strip_html("   "), "");
    assert_eq!(strip_html("a<b"), "a");
}

#[test]
fn clip_from_clipboard_choices() {
    let c = clip_from_clipboard(Some("plain".into()), Some("<i>rich</i>".into())).unwrap();
    assert_eq!(c.text.as_deref(), Some("plain"));
    assert_eq!(c.html.as_deref(), Some("<i>rich</i>"));
    let c = clip_from_clipboard(Some("  ".into()), Some("<i>rich  text</i>".into())).unwrap();
    assert_eq!(c.text.as_deref(), Some("rich text"));
    let c = clip_from_clipboard(Some("t".into()), Some(" \n".into())).unwrap();
    assert_eq!((c.text.as_deref(), c.html), (Some("t"), None));
    assert!(clip_from_clipboard(None, Some("\t".into())).is_none());
}

#[test]
fn write_plans() {
    let c = ClipContent { text: Some("x".into()), html: Some("<b>x</b>".into()) };
    match write_plan(&c) {
        Ok(WritePlan::Html { html, alt_text }) => {
            assert_eq!(html, "<b>x</b>");
            assert_eq!(alt_text.as_deref(), Some("x"));
        }
        _ => panic!("expected html"),
    }
    let c = ClipContent { text: Some(" ".into()), html: Some("<b>x</b>".into()) };
    assert!(matches!(write_plan(&c), Ok(WritePlan::Html { alt_text: None, .. })));
    let c = ClipContent { text: Some("y".into()), html: None };
    assert!(matches!(write_plan(&c), Ok(WritePlan::Text(t)) if t == "y"));
    let c = ClipContent::default();
    assert!(matches!(write_plan(&c), Err(WriteError::Empty)));
}

#[test]
fn recent_keys_window() {
    let mut m = TimedKeys::new();
    m.recent_put("h", 1_000);
    assert!(m.recent_contains("h", 1_000, 30_000));
    assert!(m.recent_contains("h", 30_999, 30_000));
    assert!(!m.recent_contains("h", 31_000, 30_000));
    assert!(!m.recent_contains("other", 1_000, 30_000));
    assert_eq!(m.get("h"), Some(1_000));
    m.recent_put("x", 700_000);
    assert_eq!(m.get("h"), None);
    assert_eq!(m.len(), 1);
}

#[test]
fn suppression_deadline() {
    let mut m = TimedKeys::new();
    m.insert("h", 5_000);
    assert!(m.is_suppressed("h", 4_999));
    assert!(!m.is_suppressed("h", 5_000));
    assert_eq!(m.len(), 0);
}

#[test]
fn local_copy_is_sent_once_and_echo_suppressed() {
    let mut g = EchoGuard::new();
    let c = ClipContent { text: Some("hello\r\nworld".into()), html: None };
    let m = handle_local_clipboard(&mut g, true, &c, 10_000, "id-1".into(), "me".into()).unwrap();
    match m {
        Message::ClipboardPush { msg_id, sender_id, content_type, content, alt_text, content_hash, timestamp_ms } => {
            assert_eq!(msg_id, "id-1");
            assert_eq!(sender_id, "me");
            assert_eq!(content_type, "text");
            assert_eq!(content, b"hello\r\nworld".to_vec());
            assert_eq!(alt_text, None);
            assert_eq!(content_hash, expected_hash("text", "hello\nworld"));
            assert_eq!(timestamp_ms, 10_000);
        }
        _ => panic!("expected push"),
    }
    assert!(handle_local_clipboard(&mut g, true, &c, 20_000, "id-2".into(), "me".into()).is_none());
    assert!(handle_local_clipboard(&mut g, true, &c, 41_000, "id-3".into(), "me".into()).is_some());
    let h = content_hash("text", "remote");
    write_remote_clipboard(&mut g, &h, 50_000);
    let r = ClipContent { text: Some("remote".into()), html: None };
    assert!(handle_local_clipboard(&mut g, true, &r, 50_100, "id-4".into(), "me".into()).is_none());
    assert!(handle_local_clipboard(&mut g, false, &c, 90_000, "id-5".into(), "me".into()).is_none());
    let blank = ClipContent { text: Some(" \n".into()), html: None };
    assert!(handle_local_clipboard(&mut g, true, &blank, 90_000, "id-6".into(), "me".into()).is_none());
}

#[test]
fn local_html_copy_carries_text_as_alternative() {
    let mut g = EchoGuard::new();
    let c = ClipContent { text: Some("rich".into()), html: Some("<b>rich</b>".into()) };
    match handle_local_clipboard(&mut g, true, &c, 1, "m".into(), "me".into()).unwrap() {
        Message::ClipboardPush { content_type, content, alt_text, .. } => {
            assert_eq!(content_type, "html");
            assert_eq!(content, b"<b>rich</b>".to_vec());
            assert_eq!(alt_text.as_deref(), Some("rich"));
        }
        _ => panic!("expected push"),
    }
}

#[test]
fn incoming_push_checks() {
    let dev = device("peer", "Peer");
    let mut g = EchoGuard::new();
    assert!(accept_incoming(&dev, push("a", "someone-else", b"x", None, "text"), &mut g, 1).is_none());
    let inc = accept_incoming(&dev, push("a", "peer", b"hi\r\nthere", None, "text"), &mut g, 1).unwrap();
    assert_eq!(inc.text, "hi\r\nthere");
    assert_eq!(inc.normalized, "hi\nthere");
    assert_eq!(inc.hash, expected_hash("text", "hi\nthere"));
    assert!(!inc.is_html);
    assert!(accept_incoming(&dev, push("a", "peer", b"again", None, "text"), &mut g, 2).is_none());
    assert!(accept_incoming(&dev, push("b", "peer", &[0xff, 0xfe], None, "text"), &mut g, 3).is_none());
    let inc = accept_incoming(&dev, push("c", "peer", b"<b>x</b>", Some("x"), "html"), &mut g, 4).unwrap();
    assert!(inc.is_html);
    assert_eq!(inc.text, "x");
    let mut off = device("peer", "Peer");
    off.receive_enabled = false;
    assert!(accept_incoming(&off, push("d", "peer", b"x", None, "text"), &mut g, 5).is_none());
    assert!(accept_incoming(&dev, Message::Hello { device_id: "peer".into() }, &mut g, 5).is_none());
}

#[test]
fn incoming_classification_and_item() {
    assert_eq!(final_content_type("  https://example.com", false), "url");
    assert_eq!(final_content_type("http://x", true), "url");
    assert_eq!(final_content_type("<b>", true), "html");
    assert_eq!(final_content_type("plain", false), "text");
    assert_eq!(make_preview("a\nb\tc\rd"), "a b c d");
    assert_eq!(make_preview(&"x".repeat(300)).chars().count(), 200);
    let dev = device("peer", "Peer");
    let mut g = EchoGuard::new();
    let inc = accept_incoming(&dev, push("m1", "peer", b"<i>hey</i>", Some("hey"), "html"), &mut g, 1_000).unwrap();
    let stored = incoming_stored_content(&inc);
    assert_eq!(stored.content_type, "html");
    assert_eq!(stored.text.as_deref(), Some("hey"));
    assert_eq!(stored.html.as_deref(), Some("<i>hey</i>"));
    assert_eq!(stored.alt_text.as_deref(), Some("hey"));
    let cipher = lanclip::cipher::LocalCipher::from_key(&[7u8; 32]).unwrap();
    let plain = b"serialised content".to_vec();
    let it = incoming_item(inc, &dev, &cipher, &plain, 1_000, 0);
    assert_eq!(it.id, "m1");
    assert_eq!(it.source_device_name, "Peer");
    assert_eq!(it.status, "pending");
    assert_eq!(it.content_size, plain.len() as i64);
    assert_ne!(it.encrypted_content, plain);
    assert_eq!(cipher.decrypt(&it.encrypted_content).unwrap(), plain);
    assert_eq!(it.expires_at, Some(1_000 + 86_400_000));
    assert_eq!(it.preview, "hey");
}

#[test]
fn receive_repeat_detection() {
    let mut g = EchoGuard::new();
    let mut mem = MemHistory::new();
    assert!(!receive_seen_recently(&mut g, "h", 100_000, None, &mem));
    assert!(receive_seen_recently(&mut g, "h", 100_000, Some(80_000), &mem));
    assert!(!receive_seen_recently(&mut g, "h", 100_000, Some(70_000), &mem));
    mem.push_front(item("i", "h", 90_000));
    assert!(receive_seen_recently(&mut g, "h", 100_000, None, &mem));
    let mut g2 = EchoGuard::new();
    g2.recent_sent.recent_put("z", 1);
    assert!(receive_seen_recently(&mut g2, "z", 2, None, &MemHistory::new()));
}

#[test]
fn authentication() {
    let seed = [4u8; 32];
    let id = Identity::from_parts(&seed, vec![], vec![1, 2], "host").unwrap();
    let nonce = [8u8; 32];
    let reply = answer_challenge(&id, &Message::Challenge { nonce }).unwrap();
    assert_eq!(check_auth(&id.public_key, &nonce, &reply), Ok(()));
    assert_eq!(check_auth(&id.public_key, &[0u8; 32], &reply), Err(AuthError::AuthFailed));
    assert_eq!(check_auth(&id.public_key[..31], &nonce, &reply), Err(AuthError::BadPublicKeyLength));
    assert_eq!(check_auth(&id.public_key, &nonce, &Message::Hello { device_id: "x".into() }), Err(AuthError::ExpectedAuth));
    let short = Message::Auth { device_id: "x".into(), signature: vec![0; 10] };
    assert_eq!(check_auth(&id.public_key, &nonce, &short), Err(AuthError::BadSignatureEncoding));
    assert!(matches!(answer_challenge(&id, &Message::Hello { device_id: "x".into() }), Err(AuthError::ExpectedChallenge)));
    let vk = ed25519_dalek::SigningKey::from_bytes(&seed).verifying_key();
    assert_eq!(id.public_key, vk.to_bytes());
    assert_eq!(verifying_key_from(&id.public_key), Ok(id.public_key));
    let mut bad = [0u8; 32];
    bad[0] = 2;
    bad[31] = 0x80;
    let invalid = (0u8..=255).map(|b| { let mut k = [b; 32]; k[31] = 0x7f; k }).find(|k| ed25519_dalek::VerifyingKey::from_bytes(k).is_err());
    if let Some(k) = invalid {
        assert_eq!(verifying_key_from(&k), Err(AuthError::InvalidPublicKey));
    }
    assert_eq!(AuthError::AuthFailed.message(), "设备认证失败");
}

#[test]
fn identity_names() {
    assert_eq!(sanitize_ascii("My Host!"), "My-Host");
    assert_eq!(sanitize_ascii("--é--"), "LanClip");
    assert_eq!(sanitize_ascii(""), "LanClip");
    assert_eq!(default_device_name("pc 1", "abcdef0123456789"), "pc-1-abcd");
    let pk = [6u8; 32];
    let id = device_id_from_public_key(&pk);
    assert_eq!(id, hex::encode(&blake3::hash(&pk).as_bytes()[..8]));
    let ident = Identity::from_parts(&[4u8; 32], vec![7], vec![1, 2], "My Host").unwrap();
    assert_eq!(ident.device_id, device_id_from_public_key(&ident.public_key));
    assert_eq!(ident.default_name, format!("My-Host-{}", &ident.device_id[..4]));
    assert!(matches!(Identity::from_parts(&[4u8; 31], vec![], vec![], "h"), Err(IdentityError::BadSeedLength)));
    assert_eq!(seed_from_bytes(&[1u8; 32]), Ok([1u8; 32]));
    assert_eq!(stored_certificate(Some("0102")), Some(vec![1, 2]));
    assert_eq!(stored_certificate(Some("")), None);
    assert_eq!(stored_certificate(Some("xyz")), None);
    assert_eq!(stored_certificate(None), None);
}

#[test]
fn discovery_names() {
    assert_eq!(sanitize_label("Alice's MacBook Pro!!"), "alice-s-macbook-pro");
    assert_eq!(sanitize_label("***"), "lanclip");
    assert_eq!(sanitize_label(&"a".repeat(50)).len(), 40);
    assert_eq!(instance_name("Work PC", "ABCDEF0123"), "work-pc-abcdef");
    assert_eq!(host_name("ABCDEF0123"), "lanclip-abcdef.local.");
    assert_eq!(full_service_name("x-1"), "x-1._lanclip._udp.local.");
    assert_eq!(addr_text(&PeerAddr { ip: [192, 168, 0, 10], port: 47654 }), "192.168.0.10:47654");
}

#[test]
fn picks_private_address() {
    let addrs = [
        IpAddress::V4([127, 0, 0, 1]),
        IpAddress::V4([8, 8, 8, 8]),
        IpAddress::V6([0; 16]),
        IpAddress::V4([172, 20, 0, 1]),
        IpAddress::V4([10, 0, 0, 5]),
        IpAddress::V4([192, 168, 1, 2]),
        IpAddress::V4([192, 168, 1, 3]),
    ];
    assert_eq!(pick_ip(&addrs), [192, 168, 1, 2]);
    assert_eq!(pick_ip(&addrs[..5]), [10, 0, 0, 5]);
    assert_eq!(pick_ip(&[IpAddress::V4([8, 8, 8, 8]), IpAddress::V4([9, 9, 9, 9])]), [8, 8, 8, 8]);
    assert_eq!(pick_ip(&[IpAddress::V4([127, 0, 0, 1])]), [127, 0, 0, 1]);
    assert_eq!(pick_ip(&[]), [127, 0, 0, 1]);
}

fn peer(id: &str, last: u8) -> Peer {
    Peer { device_id: id.into(), name: format!("n-{id}"), addr: PeerAddr { ip: [10, 0, 0, last], port: 1 }, last_seen_ms: last as i64 }
}

#[test]
fn peer_table_and_targets() {
    let mut t = PeerTable::new();
    t.insert(peer("a", 1));
    t.insert(peer("b", 2));
    t.insert(peer("a", 3));
    assert_eq!(t.entries().len(), 2);
    assert_eq!(t.get("a").unwrap().addr.ip, [10, 0, 0, 3]);
    let mut off = device("b", "B");
    off.send_enabled = false;
    let devices = vec![device("a", "A"), off, device("c", "C")];
    let targets = push_targets(&devices, &t);
    assert_eq!(targets.len(), 1);
    assert_eq!(targets[0].0, "a");
    assert_eq!(targets[0].1.ip, [10, 0, 0, 3]);
    t.remove("a");
    assert!(t.get("a").is_none());
    assert_eq!(t.entries().len(), 1);
}

#[test]
fn device_list() {
    let mut t = PeerTable::new();
    t.insert(peer("a", 1));
    t.insert(peer("x", 2));
    let devices = vec![device("a", "A"), device("b", "B")];
    let v = device_views(&devices, &t);
    assert_eq!(v.len(), 3);
    assert!(v[0].online && v[0].paired);
    assert_eq!(v[0].address.as_deref(), Some("10.0.0.1:1"));
    assert!(!v[1].online && v[1].address.is_none());
    assert_eq!(v[2].device_id, "x");
    assert!(!v[2].paired && v[2].online && !v[2].send_enabled);
    assert_eq!(v[2].last_seen_at, Some(2));
}

#[test]
fn history_listing() {
    let stored = vec![item("s1", "h", 50), item("s2", "h", 10)];
    let mut mem = MemHistory::new();
    mem.push_front(item("m1", "h", 30));
    mem.push_front(item("m2", "h", 50));
    let saved = history_views(&stored, &mem, true, None, None);
    assert_eq!(saved.iter().map(|v| v.id.as_str()).collect::<Vec<_>>(), vec!["s1", "s2"]);
    let all = history_views(&stored, &mem, false, None, None);
    assert_eq!(all.iter().map(|v| v.id.as_str()).collect::<Vec<_>>(), vec!["s1", "m2", "m1", "s2"]);
    assert!(all[0].persistent && !all[1].persistent);
    assert_eq!(stable_desc_order(&[1, 3, 3, 2]), vec![1, 2, 3, 0]);
    let v = item_view(&stored[0]);
    assert_eq!(v.preview, "preview s1");
}

#[test]
fn mem_history_ops() {
    let mut mem = MemHistory::new();
    for i in 0..105 {
        mem.push_front(item(&format!("i{i}"), "h", i));
    }
    assert_eq!(mem.items().len(), 100);
    assert_eq!(mem.items()[0].id, "i104");
    mem.set_status("i104", "accepted");
    assert_eq!(mem.find("i104").unwrap().status, "accepted");
    mem.remove_id("i104");
    assert!(mem.find("i104").is_none());
    assert_eq!(mem.items().len(), 99);
    assert!(mem.seen_within("h", 110, 10));
    mem.clear();
    assert!(mem.items().is_empty());
}

#[test]
fn retention_arithmetic() {
    assert_eq!(expiry_time(1_000, 7), 1_000 + 7 * 86_400_000);
    assert_eq!(expiry_time(0, -3), 86_400_000);
    assert_eq!(retention_cutoff(10 * 86_400_000, 2), 8 * 86_400_000);
    assert_eq!(max_items_kept(0), 1);
    assert_eq!(max_items_kept(50), 50);
    assert_eq!(list_filters(Some("  "), Some("all")), (None, None));
    assert_eq!(list_filters(Some("foo"), Some("pending")), (Some("foo".to_string()), Some("pending".to_string())));
    assert_eq!(list_filters(None, Some("")), (None, None));
}

#[test]
fn pairing_flow_decisions() {
    let ident = Identity::from_parts(&[1u8; 32], vec![], b"server-cert".to_vec(), "h").unwrap();
    let req = Message::PairingRequest {
        device_id: "client".into(),
        device_name: "Client".into(),
        device_pubkey: vec![5; 32],
        cert_der: b"client-cert".to_vec(),
        nonce: vec![1; 16],
    };
    assert!(matches!(first_frame_action(&req), FirstFrame::Pairing));
    assert!(matches!(first_frame_action(&Message::Hello { device_id: "d".into() }), FirstFrame::Authenticate(ref d) if d == "d"));
    assert!(matches!(first_frame_action(&Message::PairingReject { device_id: "d".into() }), FirstFrame::Illegal));
    let p = pending_pairing(req, &ident.tls_cert, 100).unwrap();
    assert_eq!(p.code, lanclip::transport::client_pairing_code(&[5; 32], b"server-cert", &[1; 16]));
    assert!(pending_alive(100, 120_099));
    assert!(!pending_alive(100, 120_100));
    let rec = record_from_pending(p, 200);
    assert_eq!((rec.id.as_str(), rec.send_enabled, rec.last_seen_at), ("client", true, Some(200)));
    let accept = pairing_reply_from(Message::PairingAccept {
        device_id: "srv".into(),
        device_name: "Server".into(),
        device_pubkey: vec![3; 32],
        cert_der: b"server-cert".to_vec(),
    });
    let (o, r) = pairing_outcome(b"server-cert", accept.clone(), 9);
    assert!(o.accepted);
    assert_eq!(o.message, "配对成功");
    assert_eq!(r.unwrap().name, "Server");
    let (o, r) = pairing_outcome(b"other-cert", accept, 9);
    assert!(!o.accepted && r.is_none());
    assert_eq!(o.message, "证书不匹配，疑似中间人攻击");
    assert_eq!(o.device_name, "Server");
    let (o, _) = pairing_outcome(b"", PairingReply::Reject, 9);
    assert_eq!(o.message, "对方拒绝了配对");
    let (o, _) = pairing_outcome(b"", pairing_reply_from(Message::Hello { device_id: "x".into() }), 9);
    assert_eq!(o.message, "收到意外响应");
    let (o, _) = pairing_outcome(b"", PairingReply::ChannelError("closed".into()), 9);
    assert_eq!(o.message, "配对通道断开: closed");
    assert!(pinned_cert_matches(b"abc", b"abc"));
    assert!(!pinned_cert_matches(b"abc", b"abd"));
    assert!(!pinned_cert_matches(b"abc", b"ab"));
}

#[test]
fn content_and_settings_commands() {
    let stored = StoredContent { content_type: "text".into(), text: None, html: None, alt_text: Some("alt".into()) };
    let v = content_view(stored.clone());
    assert_eq!(v.text, "alt");
    let (c, h) = accept_content(&stored);
    assert_eq!(c.text.as_deref(), Some("alt"));
    assert_eq!(h, expected_hash("text", "alt"));
    let cur = Settings::default();
    assert_eq!((cur.retention_days, cur.max_items, cur.watch_enabled), (7, 1000, true));
    let mut sv = settings_view(&cur, false);
    sv.device_name = "  Desk  ".into();
    sv.retention_days = 500;
    sv.max_items = 1;
    sv.watch_enabled = false;
    let ch = apply_settings_update(&cur, &sv).unwrap();
    assert_eq!(ch.settings.device_name, "Desk");
    assert_eq!((ch.settings.retention_days, ch.settings.max_items), (90, 10));
    assert!(ch.name_changed && ch.watch_changed);
    sv.device_name = " \t".into();
    assert!(matches!(apply_settings_update(&cur, &sv), Err(SettingsError::EmptyDeviceName)));
    let named = with_default_name(Settings::default(), "Default-1234");
    assert_eq!(named.device_name, "Default-1234");
    let mut kept = Settings::default();
    kept.device_name = "Mine".into();
    assert_eq!(with_default_name(kept, "x").device_name, "Mine");
    let _unused: SettingsView = settings_view(&named, true);
}

#[test]
fn tray_and_popup() {
    let mut s = Settings::default();
    assert!(!sync_pause_check(&s));
    toggle_watch(&mut s);
    assert!(sync_pause_check(&s));
    assert_eq!(popup_position(None, None), (1920 - 400 - 16, 16));
    let m = MonitorArea { x: 100, y: 50, width: 1000, height: 800 };
    assert_eq!(popup_position(Some(m), Some((300, 200))), (100 + 1000 - 300 - 16, 66));
}

#[test]
fn secure_store_paths_and_creation() {
    let s = SecureStore::new("lanclip");
    assert_eq!(s.file_path("k"), None);
    let s = s.with_fallback_dir("/data/secure".into());
    assert_eq!(s.file_path("tls-key").as_deref(), Some("/data/secure/tls-key.bin"));
    let r: Result<Vec<u8>, String> = s.get_or_create("k", |_| Ok(Some(vec![1])), |_, _| Err("no".into()), || Ok(vec![2]));
    assert_eq!(r, Ok(vec![1]));
    let stored = std::cell::RefCell::new(Vec::new());
    let r: Result<Vec<u8>, String> = s.get_or_create("k", |_| Ok(Some(vec![])), |_, v| { stored.borrow_mut().extend_from_slice(v); Ok(()) }, || Ok(vec![2, 3]));
    assert_eq!(r, Ok(vec![2, 3]));
    assert_eq!(*stored.borrow(), vec![2, 3]);
    let r: Result<Vec<u8>, String> = s.get_or_create("k", |_| Err("read".into()), |_, _| Ok(()), || Ok(vec![2]));
    assert_eq!(r, Err("read".to_string()));
    let r: Result<Vec<u8>, String> = s.get_or_create("k", |_| Ok(None), |_, _| Err("write".into()), || Ok(vec![2]));
    assert_eq!(r, Err("write".to_string()));
}

#[test]
fn in_memory_history_is_filtered_like_the_store() {
    let stored = vec![item("s1", "h", 50)];
    let mut mem = MemHistory::new();
    let mut a = item("m1", "h", 30);
    a.preview = "Meeting NOTES".into();
    let mut b = item("m2", "h", 40);
    b.status = "accepted".into();
    b.preview = "other".into();
    mem.push_front(a);
    mem.push_front(b);
    let ids = |v: Vec<lanclip::commands::HistoryItemView>| v.iter().map(|x| x.id.clone()).collect::<Vec<_>>();
    assert_eq!(ids(history_views(&stored, &mem, false, Some("notes"), None)), vec!["s1", "m1"]);
    assert_eq!(ids(history_views(&stored, &mem, false, None, Some("accepted"))), vec!["s1", "m2"]);
    assert_eq!(ids(history_views(&stored, &mem, false, Some("dev"), Some("all"))), vec!["s1", "m2", "m1"]);
    assert_eq!(ids(history_views(&stored, &mem, false, Some("  "), Some(""))), vec!["s1", "m2", "m1"]);
    assert_eq!(ids(history_views(&stored, &mem, false, Some("zzz"), None)), vec!["s1"]);
    assert!(lanclip::storage::contains_ignore_ascii_case("Hello World", "o w"));
    assert!(!lanclip::storage::contains_ignore_ascii_case("Hello", "hello!"));
    assert!(lanclip::storage::contains_ignore_ascii_case("abc", ""));
}

#[test]
fn txt_record_holds_only_id_version_and_name() {
    let p = lanclip::discovery::service_properties("0123456789abcdef", "Desk");
    assert_eq!(
        p,
        vec![("id".to_string(), "0123456789abcdef".to_string()), ("v".to_string(), "1".to_string()), ("n".to_string(), "Desk".to_string())]
    );
}

#[test]
fn browse_events_update_the_peer_table() {
    let mut names = FullnameIds::new();
    let mut peers = PeerTable::new();
    let resolved = |id: Option<&str>, addrs: Vec<IpAddress>| BrowseEvent::Resolved {
        fullname: "desk._lanclip._udp.local.".into(),
        id: id.map(|s| s.to_string()),
        name: None,
        addresses: addrs,
        port: 5000,
    };
    let v4 = vec![IpAddress::V6([0; 16]), IpAddress::V4([192, 168, 1, 9]), IpAddress::V4([10, 0, 0, 1])];
    assert!(matches!(apply_browse_event("me", &mut names, &mut peers, resolved(None, v4.clone()), 1), BrowseOutcome::Ignored));
    assert!(matches!(apply_browse_event("me", &mut names, &mut peers, resolved(Some("me"), v4.clone()), 1), BrowseOutcome::Ignored));
    assert!(matches!(
        apply_browse_event("me", &mut names, &mut peers, resolved(Some("peer"), vec![IpAddress::V6([1; 16])]), 1),
        BrowseOutcome::Ignored
    ));
    assert_eq!(peers.entries().len(), 0);
    match apply_browse_event("me", &mut names, &mut peers, resolved(Some("peer"), v4), 7) {
        BrowseOutcome::Seen(id) => assert_eq!(id, "peer"),
        other => panic!("unexpected {other:?}"),
    }
    let p = &peers.entries()[0];
    assert_eq!((p.name.as_str(), p.addr.ip, p.addr.port, p.last_seen_ms), ("未知设备", [192, 168, 1, 9], 5000, 7));
    let gone = BrowseEvent::Removed { fullname: "desk._lanclip._udp.local.".into() };
    assert!(matches!(apply_browse_event("me", &mut names, &mut peers, gone.clone(), 8), BrowseOutcome::Gone(ref id) if id == "peer"));
    assert_eq!(peers.entries().len(), 0);
    assert!(matches!(apply_browse_event("me", &mut names, &mut peers, gone, 9), BrowseOutcome::Ignored));
    assert!(matches!(apply_browse_event("me", &mut names, &mut peers, BrowseEvent::Other, 9), BrowseOutcome::Ignored));
}

#[test]
fn polling_reacts_to_new_text_only() {
    let c = ClipContent { text: Some("a\r\nb".into()), html: None };
    let (h, changed) = poll_step("", &c);
    assert!(changed);
    assert_eq!(h, expected_hash("text", "a\nb"));
    assert_eq!(poll_step(&h, &c), (h.clone(), false));
    assert_eq!(poll_step(&h, &ClipContent { text: Some(" ".into()), html: None }), (h.clone(), false));
    assert_eq!(poll_step("x", &ClipContent { text: None, html: None }), ("x".to_string(), false));
}

#[test]
fn crlf_text_hashes_like_lf_text() {
    let lf = "one\ntwo\n";
    let crlf = "one\r\ntwo\r\n";
    assert_eq!(normalized_text(lf), lf);
    assert_eq!(normalized_text(crlf), lf);
    assert_eq!(content_hash("text", &normalized_text(crlf)), content_hash("text", &normalized_text(lf)));
}

#[test]
fn incoming_payload_marks_memory_items() {
    let it = item("m", "h", 3);
    let p = lanclip::notification::incoming_payload(&it, false, true);
    assert!(!p.item.persistent && p.preview_allowed);
    assert_eq!(p.item.id, "m");
    let q = lanclip::notification::incoming_payload(&it, true, false);
    assert!(q.item.persistent && !q.preview_allowed);
}

#[test]
fn push_targets_list_each_device_once() {
    let mut t = PeerTable::new();
    t.insert(peer("a", 1));
    t.insert(peer("b", 2));
    let devices = vec![device("a", "A"), device("b", "B"), device("c", "C")];
    let r = push_targets(&devices, &t);
    assert_eq!(r.iter().map(|x| x.0.as_str()).collect::<Vec<_>>(), vec!["a", "b"]);
}

#[test]
fn error_messages() {
    assert_eq!(AuthError::AuthFailed.message(), "设备认证失败");
    assert_eq!(AuthError::ExpectedChallenge.message(), "期望 Challenge 消息");
    assert_eq!(SettingsError::EmptyDeviceName.message(), "设备名称不能为空");
    assert_eq!(IdentityError::BadSeedLength.message(), "身份密钥长度异常");
    assert_eq!(lanclip::cipher::CipherError::DecryptFailed.message(), "内容解密失败");
}

#[test]
fn device_id_is_sixteen_hex_characters() {
    let id = Identity::from_parts(&[3u8; 32], vec![], vec![], "h").unwrap();
    assert_eq!(id.device_id.len(), 16);
    assert!(id.device_id.chars().all(|c| c.is_ascii_hexdigit() && !c.is_ascii_uppercase()));
    let again = Identity::from_parts(&[3u8; 32], vec![1], vec![2], "h").unwrap();
    assert_eq!(again.device_id, id.device_id);
    assert_eq!(again.default_name, id.default_name);
}

#[test]
fn fallback_file_path_follows_path_join() {
    let s = SecureStore::new("svc").with_fallback_dir("/data/secure/".into());
    assert_eq!(s.file_path("tls-key").as_deref(), Some("/data/secure/tls-key.bin"));
    let t = SecureStore::new("svc").with_fallback_dir("/data".into());
    assert_eq!(t.file_path("/abs/k").as_deref(), Some("/abs/k.bin"));
    assert_eq!(t.file_path("a/b").as_deref(), Some("/data/a/b.bin"));
    let e = SecureStore::new("svc").with_fallback_dir(String::new());
    assert_eq!(e.file_path("k").as_deref(), Some("k.bin"));
    for (dir, name) in [("/x", "y"), ("/x/", "y"), ("", "y"), ("/x", "/y"), ("rel", "a/b")] {
        let expected = std::path::Path::new(dir).join(name).to_string_lossy().into_owned();
        assert_eq!(join_path(dir, name), expected);
    }
}

#[test]
fn keyring_fallback_rules() {
    assert!(matches!(read_action(KeyringRead::Found(vec![1])), ReadAction::Answer(Some(ref v)) if v == &vec![1]));
    assert!(matches!(read_action(KeyringRead::NoEntry), ReadAction::Answer(None)));
    assert!(matches!(read_action(KeyringRead::Failed), ReadAction::UseFile));
    assert!(matches!(read_action(KeyringRead::Unavailable), ReadAction::UseFile));
    assert!(!write_uses_file(KeyringWrite::Stored));
    assert!(write_uses_file(KeyringWrite::Failed));
    assert!(write_uses_file(KeyringWrite::Unavailable));
}

#[test]
fn short_id_uses_first_six_bytes_lowercased() {
    assert_eq!(host_name("ABCDEF0123"), "lanclip-abcdef.local.");
    assert_eq!(host_name("ÄÖÜxyz"), "lanclip-äöü.local.");
    assert_eq!(instance_name("PC", "ÄÖÜxyz"), format!("pc-{}", &"ÄÖÜxyz"[..6].to_lowercase()));
}

#[test]
fn later_secret_read_returns_first_value() {
    let s = SecureStore::new("svc");
    let store = std::cell::RefCell::new(None::<Vec<u8>>);
    let get = |_: &str| -> Result<Option<Vec<u8>>, String> { Ok(store.borrow().clone()) };
    let set = |_: &str, v: &[u8]| -> Result<(), String> { *store.borrow_mut() = Some(v.to_vec()); Ok(()) };
    let first = s.get_or_create("k", get, set, || Ok(vec![4, 5])).unwrap();
    let second = s.get_or_create("k", get, set, || Ok(vec![6])).unwrap();
    assert_eq!(first, vec![4, 5]);
    assert_eq!(second, first);
}

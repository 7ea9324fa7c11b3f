use ipc_core::parcel::{BorrowedMsgParcel, MsgParcel, ERR_FAILED};
use ipc_core::remote_obj::{DeathRecipient, RemoteObj};
use ipc_core::string16::String16;
use ipc_core::transport::{Slot, Transport};

#[test]
fn text_round_trip_hello() {
    let mut t = Transport::new();
    let mut parcel = MsgParcel::new(&mut t).unwrap();
    let value = String16::new("hello");
    parcel.write(&mut t, &value).unwrap();
    let back: String16 = parcel.read(&mut t).unwrap();
    assert_eq!(back.text(), "hello");
}

#[test]
fn text_round_trip_empty() {
    let mut t = Transport::new();
    let mut parcel = MsgParcel::new(&mut t).unwrap();
    let value = String16::new("");
    parcel.write(&mut t, &value).unwrap();
    let back: String16 = parcel.read(&mut t).unwrap();
    assert_eq!(back.text(), "");
}

#[test]
fn text_values_come_back_in_write_order() {
    let mut t = Transport::new();
    let mut parcel = MsgParcel::new(&mut t).unwrap();
    parcel.write(&mut t, &String16::new("first")).unwrap();
    parcel.write(&mut t, &String16::new("second")).unwrap();
    let a: String16 = parcel.read(&mut t).unwrap();
    let b: String16 = parcel.read(&mut t).unwrap();
    assert_eq!(a.text(), "first");
    assert_eq!(b.text(), "second");
}

#[test]
fn read_text_where_object_was_written_fails() {
    let mut t = Transport::new();
    let peer = t.add_peer(0, Vec::new());
    let handle = RemoteObj::from_raw(&t, Some(peer)).unwrap();
    let mut parcel = MsgParcel::new(&mut t).unwrap();
    parcel.write(&mut t, &handle).unwrap();
    let back: Result<String16, i32> = parcel.read(&mut t);
    assert_eq!(back.err(), Some(ERR_FAILED));
}

#[test]
fn read_past_end_fails() {
    let mut t = Transport::new();
    let parcel = MsgParcel::new(&mut t).unwrap();
    let back: Result<String16, i32> = parcel.read(&mut t);
    assert_eq!(back.err(), Some(ERR_FAILED));
}

#[test]
fn clone_then_release_restores_count() {
    let mut t = Transport::new();
    let peer = t.add_peer(0, Vec::new());
    let handle = RemoteObj::from_raw(&t, Some(peer)).unwrap();
    assert_eq!(t.peer_strong_count(peer), Some(1));
    let dup = handle.clone_ref(&mut t);
    assert_eq!(t.peer_strong_count(peer), Some(2));
    assert_eq!(dup.as_inner(), handle.as_inner());
    dup.release(&mut t);
    assert_eq!(t.peer_strong_count(peer), Some(1));
    // The original is still usable.
    let data = MsgParcel::new(&mut t).unwrap();
    assert!(handle.send_request(&mut t, 1, &data, false).is_ok());
}

#[test]
fn send_request_failure_carries_exact_code() {
    let mut t = Transport::new();
    let peer = t.add_peer(-17, Vec::new());
    let handle = RemoteObj::from_raw(&t, Some(peer)).unwrap();
    let data = MsgParcel::new(&mut t).unwrap();
    let r = handle.send_request(&mut t, 3, &data, false);
    assert_eq!(r.err(), Some(-17));
}

#[test]
fn send_request_success_returns_reply_unchanged() {
    let mut t = Transport::new();
    let peer = t.add_peer(0, vec![Slot::Text(String::from("pong"))]);
    let handle = RemoteObj::from_raw(&t, Some(peer)).unwrap();
    let data = MsgParcel::new(&mut t).unwrap();
    let reply = handle.send_request(&mut t, 3, &data, false).unwrap();
    let body: String16 = reply.read(&mut t).unwrap();
    assert_eq!(body.text(), "pong");
}

#[test]
fn send_request_async_produces_empty_reply() {
    let mut t = Transport::new();
    let peer = t.add_peer(0, vec![Slot::Text(String::from("two-way only"))]);
    let handle = RemoteObj::from_raw(&t, Some(peer)).unwrap();
    let data = MsgParcel::new(&mut t).unwrap();
    let reply = handle.send_request(&mut t, 9, &data, true).unwrap();
    // A one-way call expects no reply: the returned buffer holds nothing.
    let r: Result<String16, i32> = reply.read(&mut t);
    assert_eq!(r.err(), Some(ERR_FAILED));
}

#[test]
fn register_remove_release_frees_storage_exactly_once() {
    let mut t = Transport::new();
    let peer = t.add_peer(0, Vec::new());
    let handle = RemoteObj::from_raw(&t, Some(peer)).unwrap();
    let mut recipient = DeathRecipient::new(&mut t).unwrap();
    let id = recipient.as_raw();
    assert_eq!(t.recipient_state(id), Some((1, false)));
    assert!(handle.add_death_recipient(&mut t, &mut recipient));
    assert_eq!(t.recipient_state(id), Some((2, false)));
    assert!(handle.remove_death_recipient(&mut t, &mut recipient));
    // No death event was delivered; the storage is still owned by the handle.
    assert_eq!(t.recipient_state(id), Some((1, false)));
    recipient.release(&mut t);
    // The destroy hook fired exactly once, at the last release.
    assert_eq!(t.recipient_state(id), Some((0, true)));
}

#[test]
fn registration_keeps_recipient_storage_alive_after_handle_release() {
    let mut t = Transport::new();
    let peer = t.add_peer(0, Vec::new());
    let handle = RemoteObj::from_raw(&t, Some(peer)).unwrap();
    let mut recipient = DeathRecipient::new(&mut t).unwrap();
    let id = recipient.as_raw();
    assert!(handle.add_death_recipient(&mut t, &mut recipient));
    recipient.release(&mut t);
    // The registration still holds its reference: not freed yet.
    assert_eq!(t.recipient_state(id), Some((1, false)));
    assert!(t.remove_registration(peer, id));
    assert_eq!(t.recipient_state(id), Some((0, true)));
}

#[test]
fn new_then_release_frees_exactly_one_buffer() {
    let mut t = Transport::new();
    let other = MsgParcel::new(&mut t).unwrap();
    let before = t.buffers_len();
    let parcel = MsgParcel::new(&mut t).unwrap();
    let id = parcel.as_raw();
    parcel.release(&mut t);
    assert_eq!(t.buffers_len(), before + 1);
    assert!(!t.buffer_alive(id));
    // The other allocation is untouched.
    assert!(t.buffer_alive(other.as_raw()));
}

#[test]
fn write_text_then_object_reads_back_in_order() {
    let mut t = Transport::new();
    let peer = t.add_peer(0, Vec::new());
    let handle = RemoteObj::from_raw(&t, Some(peer)).unwrap();
    let mut parcel = MsgParcel::new(&mut t).unwrap();
    parcel.write(&mut t, &String16::new("hello")).unwrap();
    parcel.write(&mut t, &handle).unwrap();
    let text: String16 = parcel.read(&mut t).unwrap();
    assert_eq!(text.text(), "hello");
    let back: RemoteObj = parcel.read(&mut t).unwrap();
    // The handle read back refers to the same peer identity, with its own
    // fresh strong reference.
    assert_eq!(back.as_inner(), handle.as_inner());
    assert_eq!(t.peer_strong_count(peer), Some(2));
}

#[test]
fn deserialize_object_where_none_present_fails() {
    let mut t = Transport::new();
    let mut parcel = MsgParcel::new(&mut t).unwrap();
    parcel.write(&mut t, &String16::new("not an object")).unwrap();
    let r: Result<RemoteObj, i32> = parcel.read(&mut t);
    assert_eq!(r.err(), Some(ERR_FAILED));
}

#[test]
fn deserialize_object_of_dead_peer_fails() {
    let mut t = Transport::new();
    let peer = t.add_peer(0, Vec::new());
    let handle = RemoteObj::from_raw(&t, Some(peer)).unwrap();
    let mut parcel = MsgParcel::new(&mut t).unwrap();
    parcel.write(&mut t, &handle).unwrap();
    // The last strong reference goes away before the buffer is read.
    handle.release(&mut t);
    let r: Result<RemoteObj, i32> = parcel.read(&mut t);
    assert_eq!(r.err(), Some(ERR_FAILED));
}

#[test]
fn from_raw_rejects_missing_and_stale_references() {
    let mut t = Transport::new();
    assert!(RemoteObj::from_raw(&t, None).is_none());
    assert!(RemoteObj::from_raw(&t, Some(0)).is_none());
    assert!(MsgParcel::from_raw(&t, None).is_none());
    assert!(MsgParcel::from_raw(&t, Some(9)).is_none());
    let parcel = MsgParcel::new(&mut t).unwrap();
    let id = parcel.as_raw();
    parcel.release(&mut t);
    assert!(MsgParcel::from_raw(&t, Some(id)).is_none());
    assert!(BorrowedMsgParcel::from_raw(&t, Some(id)).is_none());
}

#[test]
fn into_raw_then_from_raw_keeps_the_buffer() {
    let mut t = Transport::new();
    let mut parcel = MsgParcel::new(&mut t).unwrap();
    parcel.write(&mut t, &String16::new("kept")).unwrap();
    let raw = parcel.into_raw();
    // Ownership went out raw: the allocation is still live.
    assert!(t.buffer_alive(raw));
    let adopted = MsgParcel::from_raw(&t, Some(raw)).unwrap();
    let back: String16 = adopted.read(&mut t).unwrap();
    assert_eq!(back.text(), "kept");
    adopted.release(&mut t);
    assert!(!t.buffer_alive(raw));
}

#[test]
fn views_share_the_owners_buffer() {
    let mut t = Transport::new();
    let mut parcel = MsgParcel::new(&mut t).unwrap();
    let raw = parcel.as_raw();
    assert_eq!(parcel.borrowed_ref().as_raw(), raw);
    let mut view = parcel.borrowed();
    assert_eq!(view.as_raw(), raw);
    let sub = view.reborrow();
    assert_eq!(sub.as_raw(), raw);
}

#[test]
fn view_write_and_read_match_owner_entry_points() {
    let mut t = Transport::new();
    let mut parcel = MsgParcel::new(&mut t).unwrap();
    let mut view = parcel.borrowed();
    view.write(&mut t, &String16::new("via view")).unwrap();
    let reader = parcel.borrowed_ref();
    let back: String16 = reader.read(&mut t).unwrap();
    assert_eq!(back.text(), "via view");
}

#[test]
fn notify_targets_follow_registration_order() {
    let mut t = Transport::new();
    let peer = t.add_peer(0, Vec::new());
    let other = t.add_peer(0, Vec::new());
    let handle = RemoteObj::from_raw(&t, Some(peer)).unwrap();
    let mut first = DeathRecipient::new(&mut t).unwrap();
    let mut second = DeathRecipient::new(&mut t).unwrap();
    assert!(handle.add_death_recipient(&mut t, &mut first));
    assert!(handle.add_death_recipient(&mut t, &mut second));
    assert_eq!(t.notify_targets(peer), vec![first.as_raw(), second.as_raw()]);
    assert_eq!(t.notify_targets(other), Vec::<usize>::new());
    assert!(handle.remove_death_recipient(&mut t, &mut first));
    assert_eq!(t.notify_targets(peer), vec![second.as_raw()]);
}

#[test]
fn registration_on_gone_peer_reports_false() {
    let mut t = Transport::new();
    let peer = t.add_peer(0, Vec::new());
    let handle = RemoteObj::from_raw(&t, Some(peer)).unwrap();
    let recipient = DeathRecipient::new(&mut t).unwrap();
    handle.release(&mut t);
    // The peer's last reference is gone: the native side refuses to register.
    assert!(!t.add_registration(peer, recipient.as_raw()));
    // An index that names no peer at all is refused as well.
    assert!(!t.add_registration(peer + 7, recipient.as_raw()));
}

#[test]
fn remove_death_recipient_without_registration_reports_false() {
    let mut t = Transport::new();
    let peer = t.add_peer(0, Vec::new());
    let handle = RemoteObj::from_raw(&t, Some(peer)).unwrap();
    let mut recipient = DeathRecipient::new(&mut t).unwrap();
    assert!(!handle.remove_death_recipient(&mut t, &mut recipient));
}

#[test]
fn serialize_failure_leaves_buffer_readable_in_order() {
    let mut t = Transport::new();
    let mut parcel = MsgParcel::new(&mut t).unwrap();
    parcel.write(&mut t, &String16::new("stays")).unwrap();
    // A failed object read changes nothing; the text is still next.
    let bad: Result<RemoteObj, i32> = parcel.read(&mut t);
    assert!(bad.is_err());
    let back: String16 = parcel.read(&mut t).unwrap();
    assert_eq!(back.text(), "stays");
}

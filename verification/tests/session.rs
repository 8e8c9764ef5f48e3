use chat_relay::actor::RoomActor;
use chat_relay::session::handle_inbound;

#[test]
fn wellformed_frame_becomes_a_stamped_message() {
    let m = handle_inbound("{\"author\":\"x\",\"content\":\"hello\"}", 1700000000000)
        .expect("a wellformed frame must be accepted");
    assert_eq!(m.author, "x");
    assert_eq!(m.content, "hello");
    assert_eq!(m.time, 1700000000000);
}

#[test]
fn frame_with_extra_members_is_still_accepted() {
    let m = handle_inbound(
        "{\"author\":\"x\",\"content\":\"hi\",\"color\":\"red\"}",
        1,
    )
    .expect("extra members do not make a frame malformed");
    assert_eq!(m.author, "x");
    assert_eq!(m.content, "hi");
}

#[test]
fn malformed_frames_are_dropped() {
    assert!(handle_inbound("{\"author\":\"x\"}", 1).is_none());
    assert!(handle_inbound("{\"content\":\"hi\"}", 1).is_none());
    assert!(handle_inbound("{\"author\":7,\"content\":\"hi\"}", 1).is_none());
    assert!(handle_inbound("not json at all", 1).is_none());
    assert!(handle_inbound("", 1).is_none());
    assert!(handle_inbound("[\"author\",\"content\"]", 1).is_none());
}

#[test]
fn malformed_frame_does_not_end_the_session() {
    let mut actor: RoomActor<&'static str> = RoomActor::new();
    actor.on_join("c1", true);
    // A session drops a malformed frame and keeps reading: the next
    // wellformed frame from the same connection is still posted.
    assert!(handle_inbound("{\"author\":\"x\"}", 10).is_none());
    let m = handle_inbound("{\"author\":\"x\",\"content\":\"still here\"}", 11)
        .expect("the follow-up frame must be accepted");
    actor.on_post(m);
    assert_eq!(actor.history_len(), 1);
    assert_eq!(actor.history_at(0).content, "still here");
    assert_eq!(actor.history_at(0).time, 11);
    assert_eq!(actor.roster_len(), 1);
}

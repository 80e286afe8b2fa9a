use ataraxy::Context;
use ataraxy::context::ReplyError;

#[test]
fn first_reply_succeeds_with_payload() {
    let mut ctx = Context::new(99);
    let reply = ctx.reply(String::from("hello")).expect("first reply succeeds");
    assert_eq!(reply.interaction_id, 99);
    assert_eq!(reply.content, "hello");
    assert!(!reply.ephemeral);
}

#[test]
fn ephemeral_reply_sets_the_flag() {
    let mut ctx = Context::new(5);
    let reply = ctx
        .reply_ephemeral(String::from("psst"))
        .expect("first reply succeeds");
    assert!(reply.ephemeral);
    assert_eq!(reply.content, "psst");
}

#[test]
fn second_reply_is_double_reply_and_first_stands() {
    let mut ctx = Context::new(3);
    let first = ctx.reply(String::from("one")).expect("first reply succeeds");
    let second = ctx.reply(String::from("two"));
    assert_eq!(second, Err(ReplyError::DoubleReply));
    assert_eq!(first.content, "one");
    assert_eq!(first.interaction_id, 3);
}

#[test]
fn mixed_reply_kinds_share_the_guard() {
    let mut ctx = Context::new(4);
    ctx.reply_ephemeral(String::from("one")).expect("first reply succeeds");
    assert_eq!(ctx.reply(String::from("two")), Err(ReplyError::DoubleReply));
    assert_eq!(
        ctx.reply_ephemeral(String::from("three")),
        Err(ReplyError::DoubleReply)
    );
}

use omg_core::{handle, Handle, ReadError, TryError, TryWriteError, WriteError};

#[test]
fn inputs_arrive_in_the_order_written() {
    let (mailbox, context) = handle::<u32, u32>(4);
    assert_eq!(mailbox.try_write(1), Ok(()));
    assert_eq!(mailbox.write_blocking(2), Ok(()));
    assert_eq!(mailbox.try_write(3), Ok(()));
    assert_eq!(context.pop(), Some(1));
    assert_eq!(context.pop(), Some(2));
    assert_eq!(context.pop(), Some(3));
}

#[test]
fn full_mailbox_refuses_without_losing_what_it_holds() {
    let (mailbox, context) = handle::<String, u32>(2);
    assert_eq!(mailbox.try_write("a".to_string()), Ok(()));
    assert_eq!(mailbox.try_write("b".to_string()), Ok(()));
    let refused = mailbox.try_write("c".to_string()).unwrap_err();
    assert_eq!(refused, TryWriteError::Full("c".to_string()));
    assert!(refused.is_full());
    assert_eq!(refused.into_inner(), "c");
    assert_eq!(context.pop(), Some("a".to_string()));
    assert_eq!(context.pop(), Some("b".to_string()));
    assert_eq!(mailbox.try_write("c".to_string()), Ok(()));
    assert_eq!(context.pop(), Some("c".to_string()));
}

#[test]
fn writes_to_a_closed_mailbox_hand_the_message_back() {
    let (mailbox, context) = handle::<u32, u32>(2);
    drop(context);
    let refused = mailbox.try_write(7).unwrap_err();
    assert_eq!(refused, TryWriteError::Closed(7));
    assert!(!refused.is_full());
    assert_eq!(mailbox.write_blocking(8), Err(WriteError(8)));
}

#[test]
fn closing_the_write_side_keeps_buffered_input() {
    let (mailbox, context) = handle::<u32, u32>(4);
    mailbox.try_write(1).unwrap();
    mailbox.try_write(2).unwrap();
    drop(mailbox);
    assert_eq!(context.pop(), Some(1));
    assert_eq!(context.pop(), Some(2));
    assert_eq!(context.pop(), None);
}

#[test]
fn every_reader_sees_every_output() {
    let (mut first, context) = handle::<u32, String>(4);
    let mut second = first.new_handle();
    assert!(!context.push("x".to_string()));
    assert!(!context.push("y".to_string()));
    assert_eq!(first.try_read(), Ok("x".to_string()));
    assert_eq!(second.try_read(), Ok("x".to_string()));
    assert_eq!(second.read_blocking(), Ok("y".to_string()));
    assert_eq!(first.read_blocking(), Ok("y".to_string()));
    assert_eq!(first.try_read(), Err(TryError::Empty));
    assert_eq!(second.try_read(), Err(TryError::Empty));
}

#[test]
fn a_new_reader_sees_only_what_is_sent_after_it() {
    let (mut early, context) = handle::<u32, u32>(4);
    assert!(!context.push(1));
    let mut late = early.reader.new_reader();
    assert!(!context.push(2));
    assert_eq!(early.try_read(), Ok(1));
    assert_eq!(early.try_read(), Ok(2));
    assert_eq!(late.try_read(), Ok(2));
    assert_eq!(late.try_read(), Err(TryError::Empty));
}

#[test]
fn readers_learn_that_the_stream_is_closed() {
    let (mut mailbox, context) = handle::<u32, u32>(4);
    assert!(!context.push(5));
    drop(context);
    assert_eq!(mailbox.try_read(), Ok(5));
    assert_eq!(mailbox.try_read(), Err(TryError::Closed));
    assert_eq!(mailbox.read_blocking(), Err(ReadError::Closed));
}

#[test]
fn push_reports_that_no_reader_is_left() {
    let (mailbox, context) = handle::<u32, u32>(4);
    let writer = mailbox.write_only();
    assert!(context.push(1));
    assert_eq!(writer.try_write(3), Ok(()));
    assert_eq!(context.pop(), Some(3));
}

#[test]
fn split_and_merge_keep_both_sides() {
    let (mailbox, context) = handle::<u32, u32>(4);
    let (reader, writer) = mailbox.split();
    let other = writer.new_writer();
    let mut merged = Handle::merge(reader, writer);
    assert_eq!(other.try_write(1), Ok(()));
    assert_eq!(merged.try_write(2), Ok(()));
    assert_eq!(context.pop(), Some(1));
    assert_eq!(context.pop(), Some(2));
    assert!(!context.push(9));
    assert_eq!(merged.try_read(), Ok(9));
    let mut reader = merged.read_only();
    assert!(!context.push(10));
    assert_eq!(reader.try_read(), Ok(10));
    // the write side that `other` still holds keeps the mailbox open
    assert_eq!(other.try_write(3), Ok(()));
    assert_eq!(context.pop(), Some(3));
}

#[test]
fn the_channels_behind_a_handle_can_be_reached() {
    let (mut mailbox, context) = handle::<u32, u32>(3);
    assert_eq!(mailbox.writer.queue().capacity(), Some(3));
    assert_eq!(mailbox.reader.stream().capacity(), 3);
    assert_eq!(context.input().len(), 0);
    assert_eq!(context.output().receiver_count(), 1);
    mailbox.try_write(1).unwrap();
    assert_eq!(context.input().len(), 1);
}

#[test]
fn try_pop_never_blocks() {
    let (mailbox, context) = handle::<u32, u32>(2);
    assert_eq!(context.try_pop(), Err(TryError::Empty));
    mailbox.try_write(4).unwrap();
    assert_eq!(context.try_pop(), Ok(4));
    drop(mailbox);
    assert_eq!(context.try_pop(), Err(TryError::Closed));
}

#[test]
fn shut_closes_the_mailbox_and_discards_what_is_queued() {
    let (mailbox, context) = handle::<u32, u32>(3);
    mailbox.try_write(1).unwrap();
    mailbox.try_write(2).unwrap();
    assert_eq!(context.shut(), 2);
    assert_eq!(mailbox.try_write(3), Err(TryWriteError::Closed(3)));
    let (full, context) = handle::<u32, u32>(2);
    full.try_write(1).unwrap();
    full.try_write(2).unwrap();
    assert_eq!(context.shut(), 2);
    let (idle, context) = handle::<u32, u32>(2);
    assert_eq!(context.shut(), 0);
    assert_eq!(idle.write_blocking(1), Err(WriteError(1)));
}

#[test]
fn read_errors_say_what_happened() {
    assert_eq!(TryError::Empty.text(), "There is no data to return just now. (Would block.)");
    assert_eq!(TryError::Closed.text(), "This channel is closed from sender.");
    assert_eq!(TryError::Overflowed(3).text(), "Outputs were overwritten before they were read.");
}

use blocksync::channel::{Channel, TryRecv, TrySend};
use blocksync::memory::{read_at, write_at};

#[test]
fn channel_hands_items_out_in_the_order_they_came() {
    let mut channel: Channel<u32> = Channel::new(3);
    assert!(matches!(channel.try_send(1), TrySend::Sent));
    assert!(matches!(channel.try_send(2), TrySend::Sent));
    assert!(matches!(channel.try_send(3), TrySend::Sent));
    assert_eq!(channel.len(), 3);
    assert!(matches!(channel.try_recv(), TryRecv::Item(1)));
    assert!(matches!(channel.try_recv(), TryRecv::Item(2)));
    assert!(matches!(channel.try_recv(), TryRecv::Item(3)));
    assert!(matches!(channel.try_recv(), TryRecv::Empty));
}

#[test]
fn full_channel_gives_the_item_back() {
    let mut channel: Channel<u32> = Channel::new(1);
    assert!(matches!(channel.try_send(1), TrySend::Sent));
    assert!(matches!(channel.try_send(2), TrySend::Full(2)));
    assert_eq!(channel.len(), 1);
}

#[test]
fn closed_channel_takes_nothing_and_gives_what_it_holds() {
    let mut channel: Channel<u32> = Channel::new(2);
    assert!(matches!(channel.try_send(1), TrySend::Sent));
    channel.close();
    assert!(matches!(channel.try_send(2), TrySend::Closed(2)));
    assert!(matches!(channel.try_recv(), TryRecv::Item(1)));
    assert!(matches!(channel.try_recv(), TryRecv::Closed));
}

#[test]
fn read_fills_the_storage_from_the_cursor() {
    let stream = [1u8, 2, 3, 4, 5, 6];
    let mut storage = vec![0u8; 4];
    assert_eq!(read_at(&stream, 1, &mut storage), 4);
    assert_eq!(storage, vec![2, 3, 4, 5]);
}

#[test]
fn read_near_the_end_is_short_and_keeps_the_rest_of_the_storage() {
    let stream = [1u8, 2, 3, 4, 5, 6];
    let mut storage = vec![9u8; 4];
    assert_eq!(read_at(&stream, 4, &mut storage), 2);
    assert_eq!(storage, vec![5, 6, 9, 9]);
}

#[test]
fn read_at_the_end_reads_nothing() {
    let stream = [1u8, 2, 3];
    let mut storage = vec![9u8; 4];
    assert_eq!(read_at(&stream, 3, &mut storage), 0);
    assert_eq!(storage, vec![9, 9, 9, 9]);
}

#[test]
fn write_replaces_the_bytes_at_the_position() {
    let mut stream = vec![1u8, 2, 3, 4, 5, 6];
    assert_eq!(write_at(&mut stream, 2, &[7, 8]), 2);
    assert_eq!(stream, vec![1, 2, 7, 8, 5, 6]);
}

#[test]
fn write_near_the_end_is_short_and_keeps_the_length() {
    let mut stream = vec![1u8, 2, 3, 4];
    assert_eq!(write_at(&mut stream, 3, &[7, 8, 9]), 1);
    assert_eq!(stream, vec![1, 2, 3, 7]);
}

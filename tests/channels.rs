use light_rpc::{COMMAND_CHANNEL_CAPACITY, EVENT_CHANNEL_CAPACITY};
use tokio::sync::{broadcast, mpsc};

#[test]
fn command_queue_applies_backpressure_when_full() {
    let (sender, mut receiver) = mpsc::channel::<u32>(COMMAND_CHANNEL_CAPACITY);
    for i in 0..COMMAND_CHANNEL_CAPACITY as u32 {
        assert!(sender.try_send(i).is_ok());
    }
    assert!(matches!(sender.try_send(9999), Err(mpsc::error::TrySendError::Full(9999))));
    assert_eq!(receiver.try_recv().unwrap(), 0);
    assert!(sender.try_send(9999).is_ok());
}

#[test]
fn event_reaches_only_earlier_listeners() {
    let (sender, mut early) = broadcast::channel::<String>(EVENT_CHANNEL_CAPACITY);
    sender.send("connected".to_string()).unwrap();
    let mut late = sender.subscribe();
    assert_eq!(early.try_recv().unwrap(), "connected");
    assert!(matches!(late.try_recv(), Err(broadcast::error::TryRecvError::Empty)));
}

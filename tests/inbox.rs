use std::sync::mpsc;
use virtual_list::SendError;

#[test]
fn send_error_keeps_the_message() {
    let (tx, rx) = mpsc::channel::<String>();
    drop(rx);
    let err = tx.send("lost".to_string()).unwrap_err();
    let back: SendError<String> = err.into();
    assert_eq!(back.0, "lost");
}

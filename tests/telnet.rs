use ascii_processing_unit::telnet::{filter_telnet_commands, naws_message, telnet_raw_mode, TelnetClient};

#[test]
fn filter_drops_negotiation() {
    let data = [b'a', 255, 251, 1, b'b', 255, 250, 24, 1, 255, 240, b'c', 255, 241, b'd'];
    assert_eq!(filter_telnet_commands(&data), b"abcd".to_vec());
}

#[test]
fn escaped_iac_is_one_byte() {
    assert_eq!(filter_telnet_commands(&[255, 255]), vec![255]);
    assert_eq!(filter_telnet_commands(&[b'x', 255, 255, b'y']), vec![b'x', 255, b'y']);
}

#[test]
fn filter_twice_is_filter_once() {
    let data = [b'q', 255, 253, 3, 255, 250, 31, 0, 80, 0, 24, 255, 240, b'r', 255];
    let once = filter_telnet_commands(&data);
    assert_eq!(filter_telnet_commands(&once), once);
    assert_eq!(once, vec![b'q', b'r', 255]);
}

#[test]
fn raw_mode_negotiation() {
    assert_eq!(telnet_raw_mode(), vec![255, 251, 1, 255, 251, 3, 255, 253, 3, 255, 254, 34]);
}

#[test]
fn client_answers_options() {
    let mut c = TelnetClient::new(300, 40);
    let (app, replies) = c.process(&[b'h', 255, 253, 24, b'i', 255, 253, 31, 255, 250, 24, 1, 255, 240, 255, 255]);
    assert_eq!(app, vec![b'h', b'i', 255]);
    assert_eq!(replies, vec![
        vec![255, 251, 24],
        vec![255, 251, 31],
        vec![255, 250, 31, 1, 44, 0, 40, 255, 240],
        vec![255, 250, 24, 0, b'A', b'N', b'S', b'I', 255, 240],
    ]);
    assert_eq!(naws_message(80, 24), vec![255, 250, 31, 0, 80, 0, 24, 255, 240]);
}

use rackit::error::Error;
use rackit::transport::prompt::{DEFAULT_PROMPT_TIMEOUT_MS, POLL_INTERVAL_MS};
use rackit::transport::traits::{command_line, ensure_connected};
use rackit::transport::{AfterRead, DelimiterWait, PromptWait, ReadEvent, SSHTransport};

fn data(text: &str) -> ReadEvent {
    ReadEvent::Data(text.as_bytes().to_vec())
}

#[test]
fn a_wait_without_a_prompt_ends_well_at_the_deadline_with_all_that_was_read() {
    let mut wait = PromptWait::new("esr-200#", 10000);
    assert_eq!(wait.poll(0), None);
    assert_eq!(wait.on_read(data("Welcome ")), AfterRead::Continue);
    assert_eq!(wait.poll(4000), None);
    assert_eq!(wait.on_read(ReadEvent::TimedOut), AfterRead::Sleep(50));
    assert_eq!(wait.on_read(data("to the router\r\n")), AfterRead::Continue);
    assert_eq!(wait.on_read(ReadEvent::Data(vec![])), AfterRead::Sleep(50));
    assert_eq!(wait.poll(10000), None);
    assert_eq!(wait.poll(10001), Some("Welcome to the router\r\n".to_string()));
    assert_eq!(wait.poll(u64::MAX), Some("Welcome to the router\r\n".to_string()));
}

#[test]
fn a_wait_that_read_nothing_ends_with_an_empty_text() {
    let wait = PromptWait::new("#", 0);
    assert_eq!(wait.poll(0), None);
    assert_eq!(wait.poll(1), Some(String::new()));
}

#[test]
fn a_wait_is_done_as_soon_as_the_prompt_is_there_and_asks_for_no_more_reads() {
    let mut wait = PromptWait::new("esr-200#", 10000);
    assert_eq!(wait.on_read(data("login ok\r\nesr-")), AfterRead::Continue);
    assert_eq!(wait.poll(10), None);
    assert_eq!(
        wait.on_read(data("200# ")),
        AfterRead::Done("login ok\r\nesr-200# ".to_string())
    );
    assert_eq!(wait.poll(10), Some("login ok\r\nesr-200# ".to_string()));
    assert_eq!(wait.poll(0), Some("login ok\r\nesr-200# ".to_string()));
    assert_eq!(
        wait.on_read(data("more")),
        AfterRead::Done("login ok\r\nesr-200# ".to_string())
    );
    assert_eq!(
        wait.on_read(ReadEvent::Failed(Error::Timeout)),
        AfterRead::Done("login ok\r\nesr-200# ".to_string())
    );
}

#[test]
fn a_prompt_in_the_first_piece_ends_the_wait_at_once() {
    let mut wait = PromptWait::new(">", DEFAULT_PROMPT_TIMEOUT_MS);
    assert_eq!(wait.on_read(data("a>b")), AfterRead::Done("a>b".to_string()));
}

#[test]
fn only_a_failure_of_the_transport_fails_a_wait() {
    let mut wait = PromptWait::new("#", 10000);
    assert_eq!(wait.on_read(data("abc")), AfterRead::Continue);
    assert_eq!(
        wait.on_read(ReadEvent::Failed(Error::Io("broken pipe".to_string()))),
        AfterRead::Fail(Error::Io("broken pipe".to_string()))
    );
    assert_eq!(wait.poll(20000), Some("abc".to_string()));
}

#[test]
fn bytes_that_are_no_text_are_replaced_when_the_buffer_is_decoded() {
    let mut wait = PromptWait::new("#", 10000);
    assert_eq!(wait.on_read(ReadEvent::Data(vec![0x61, 0xFF, 0x62])), AfterRead::Continue);
    assert_eq!(
        wait.on_read(ReadEvent::Data(vec![0xD0])),
        AfterRead::Continue
    );
    assert_eq!(
        wait.on_read(ReadEvent::Data(vec![0x9F, 0x23])),
        AfterRead::Done("a\u{FFFD}b\u{41F}#".to_string())
    );
}

#[test]
fn the_poll_interval_is_fifty_milliseconds_and_the_deadline_ten_seconds() {
    assert_eq!(POLL_INTERVAL_MS, 50);
    assert_eq!(DEFAULT_PROMPT_TIMEOUT_MS, 10000);
}

#[test]
fn a_read_up_to_a_delimiter_ends_with_the_delimiter() {
    let mut wait = DelimiterWait::new(b'\n');
    assert!(!wait.on_byte(b'o'));
    assert!(!wait.on_byte(b'k'));
    assert!(wait.on_byte(b'\n'));
    assert!(wait.on_byte(b'x'));
    assert_eq!(wait.into_bytes(), b"ok\n".to_vec());
    let mut wait = DelimiterWait::new(0);
    assert!(wait.on_byte(0));
    assert_eq!(wait.into_bytes(), vec![0]);
    assert_eq!(DelimiterWait::new(b'#').into_bytes(), Vec::<u8>::new());
}

#[test]
fn a_line_goes_out_with_carriage_return_and_line_feed() {
    assert_eq!(command_line("show system"), b"show system\r\n".to_vec());
    assert_eq!(command_line(""), b"\r\n".to_vec());
    assert_eq!(command_line("пароль"), "пароль\r\n".as_bytes().to_vec());
}

#[test]
fn an_operation_on_a_session_that_does_not_stand_is_a_connection_error() {
    assert_eq!(ensure_connected(true), Ok(()));
    assert_eq!(
        ensure_connected(false),
        Err(Error::Connection("Port not connected".to_string()))
    );
}

#[test]
fn an_ssh_endpoint_keeps_its_address() {
    let endpoint = SSHTransport::new("22".to_string(), "192.168.1.50".to_string());
    assert_eq!(endpoint.port, "22");
    assert_eq!(endpoint.host, "192.168.1.50");
}

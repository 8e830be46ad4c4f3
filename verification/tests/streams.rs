use chat_core::frame::FrameError;
use chat_core::message::Message;
use chat_core::read::ChatReader;
use chat_core::read_write_streams::{ByteStream, ReadWriteStreams};
use chat_core::request::{Request, RequestError};
use chat_core::response::Response;
use chat_core::user::{User, Username};
use chat_core::value::Value;
use chat_core::write::ChatWriter;

#[test]
fn the_byte_limit() {
    assert_eq!(<ByteStream as ChatReader>::byte_limit(), 4000);
    assert_eq!(<ByteStream as ChatWriter>::byte_limit(), 4000);
    assert_eq!(<ReadWriteStreams as ChatReader>::byte_limit(), 4000);
    assert_eq!(<ReadWriteStreams as ChatWriter>::byte_limit(), 4000);
}

#[test]
fn what_is_written_is_read_back() {
    let mut stream = ByteStream::new();
    let first = Request::SendMessage(Value::from("hello"));
    let second = Request::ChangeUserName(Value::from("zoe"));
    assert_eq!(stream.write_data(&first), Ok(()));
    assert_eq!(stream.write_data(&second), Ok(()));
    assert_eq!(stream.write_data(&Request::UserList), Ok(()));
    assert_eq!(stream.read_data::<Request>(), Ok(first));
    assert_eq!(stream.read_data::<Request>(), Ok(second));
    assert_eq!(stream.read_data::<Request>(), Ok(Request::UserList));
    assert_eq!(stream.len(), 0);
    assert_eq!(stream.read_data::<Request>(), Err(FrameError::NoDataYet));
}

#[test]
fn a_response_on_a_stream() {
    let from = User::builder().username(Username::new(Value::from("bob"))).id(2).build();
    let message: Response = Ok(Message::builder().from_who(from).payload(Value::from("hi")).build());
    let failure: Response = Err(RequestError::Ip);
    let mut stream = ByteStream::default();
    assert_eq!(stream.write_data(&message), Ok(()));
    assert_eq!(stream.write_data(&failure), Ok(()));
    assert_eq!(stream.read_data::<Response>(), Ok(message));
    assert_eq!(stream.read_data::<Response>(), Ok(failure));
}

#[test]
fn too_large_a_value_leaves_the_stream_untouched() {
    let mut stream = ByteStream::new();
    assert_eq!(stream.write_data(&Request::UserList), Ok(()));
    let before = stream.len();
    let large = Request::SendMessage(Value::Image(vec![0; 3991]));
    assert_eq!(stream.write_data(&large), Err(FrameError::SizeLimitExceeded));
    assert_eq!(stream.len(), before);
    let fits = Request::SendMessage(Value::Image(vec![0; 3990]));
    assert_eq!(stream.write_data(&fits), Ok(()));
    assert_eq!(stream.len(), before + 8 + 4000);
    assert_eq!(stream.read_data::<Request>(), Ok(Request::UserList));
    assert_eq!(stream.read_data::<Request>(), Ok(fits));
}

#[test]
fn bytes_arrive_piece_by_piece() {
    let mut sender = ByteStream::new();
    let request = Request::SendMessage(Value::from("piecemeal"));
    assert_eq!(sender.write_data(&request), Ok(()));
    let bytes = sender.take();
    assert_eq!(sender.len(), 0);
    let mut receiver = ByteStream::new();
    for byte in &bytes[..bytes.len() - 1] {
        receiver.feed(&[*byte]);
        assert_eq!(receiver.read_data::<Request>(), Err(FrameError::NoDataYet));
    }
    let held = receiver.len();
    assert_eq!(held, bytes.len() - 1);
    receiver.feed(&bytes[bytes.len() - 1..]);
    assert_eq!(receiver.read_data::<Request>(), Ok(request));
    assert_eq!(receiver.len(), 0);
}

#[test]
fn the_end_of_a_stream() {
    let mut stream = ByteStream::new();
    assert!(!stream.is_ended());
    assert_eq!(stream.read_data::<Request>(), Err(FrameError::NoDataYet));
    stream.end();
    assert!(stream.is_ended());
    assert_eq!(stream.read_data::<Request>(), Err(FrameError::ConnectionClosed));
    let mut cut_off = ByteStream::new();
    cut_off.feed(&[5, 0, 0, 0, 0, 0, 0, 0, 0, 1]);
    cut_off.end();
    assert_eq!(cut_off.read_data::<Request>(), Err(FrameError::ConnectionClosed));
    assert_eq!(cut_off.len(), 10);
}

#[test]
fn what_was_written_before_the_end_is_still_read() {
    let mut stream = ByteStream::new();
    assert_eq!(stream.write_data(&Request::UserList), Ok(()));
    stream.end();
    assert_eq!(stream.read_data::<Request>(), Ok(Request::UserList));
    assert_eq!(stream.read_data::<Request>(), Err(FrameError::ConnectionClosed));
}

#[test]
fn a_bad_frame_stays_on_the_stream() {
    let mut stream = ByteStream::new();
    stream.feed(&[1, 0, 0, 0, 0, 0, 0, 0, 9, 1, 2]);
    assert_eq!(stream.read_data::<Request>(), Err(FrameError::DecodingError));
    assert_eq!(stream.len(), 11);
    let mut large = ByteStream::new();
    large.feed(&4001u64.to_le_bytes());
    assert_eq!(large.read_data::<Request>(), Err(FrameError::SizeLimitExceeded));
    assert_eq!(large.len(), 8);
}

#[test]
fn the_two_directions_of_a_connection() {
    let mut streams = ReadWriteStreams::new();
    assert_eq!(streams.write_data(&Request::UserList), Ok(()));
    assert_eq!(streams.read_data::<Request>(), Err(FrameError::NoDataYet));
    assert_eq!(streams.write.len(), 9);
    assert_eq!(streams.read.len(), 0);
    let sent = streams.write.take();
    streams.read.feed(&sent);
    assert_eq!(streams.read_data::<Request>(), Ok(Request::UserList));
    assert_eq!(streams.write.len(), 0);
}

use reql::envelope::wrap_query;
use reql::envelope::QueryType;
use reql::error::Error;
use reql::error::FrameStep;
use reql::wire::read_query;
use reql::wire::write_query;
use reql::wire::FrameWriter;
use reql::wire::ReadStage;
use reql::wire::ReadStep;
use reql::wire::Session;

fn written(mut writer: FrameWriter, conn: &mut Session) -> Vec<u8> {
    let mut out = Vec::new();
    loop {
        if let Some(bytes) = writer.bytes() {
            out.extend_from_slice(&bytes);
        }
        match writer.advance(conn, true).unwrap() {
            Some(next) => writer = next,
            None => return out,
        }
    }
}

#[test]
fn request_frame_is_token_length_payload() {
    let mut conn = Session { id: 0x0102030405060708, broken: false };
    let writer = write_query(&conn, "[1,\"x\"]").unwrap();
    let bytes = written(writer, &mut conn);
    assert_eq!(
        bytes,
        vec![8, 7, 6, 5, 4, 3, 2, 1, 7, 0, 0, 0, b'[', b'1', b',', b'"', b'x', b'"', b']']
    );
    assert!(!conn.broken);
}

#[test]
fn writer_goes_token_length_payload_flush() {
    let mut conn = Session { id: 1, broken: false };
    let w = write_query(&conn, "ab").unwrap();
    assert_eq!(w.step(), FrameStep::Token);
    assert_eq!(w.bytes(), Some(vec![1, 0, 0, 0, 0, 0, 0, 0]));
    let w = w.advance(&mut conn, true).unwrap().unwrap();
    assert_eq!(w.step(), FrameStep::Length);
    assert_eq!(w.bytes(), Some(vec![2, 0, 0, 0]));
    let w = w.advance(&mut conn, true).unwrap().unwrap();
    assert_eq!(w.step(), FrameStep::Payload);
    assert_eq!(w.bytes(), Some(vec![b'a', b'b']));
    let w = w.advance(&mut conn, true).unwrap().unwrap();
    assert_eq!(w.step(), FrameStep::Flush);
    assert_eq!(w.bytes(), None);
    assert!(w.advance(&mut conn, true).unwrap().is_none());
}

#[test]
fn failed_write_breaks_the_session() {
    let mut conn = Session { id: 9, broken: false };
    let w = write_query(&conn, "[1]").unwrap();
    let w = w.advance(&mut conn, true).unwrap().unwrap();
    match w.advance(&mut conn, false) {
        Err(Error::Session { step }) => assert_eq!(step, FrameStep::Length),
        other => panic!("{:?}", other),
    }
    assert!(conn.broken);
    assert!(matches!(write_query(&conn, "[1]"), Err(Error::Broken)));
    assert!(matches!(read_query(&conn), Err(Error::Broken)));
}

#[test]
fn response_frame_reads_back() {
    let mut conn = Session { id: 3, broken: false };
    let reader = read_query(&conn).unwrap();
    assert_eq!(reader.wants(), 8);
    let reader = match reader.feed(&mut conn, Some(vec![3, 0, 0, 0, 0, 0, 0, 0])).unwrap() {
        ReadStep::More(next) => next,
        other => panic!("{:?}", other),
    };
    assert_eq!(reader.stage, ReadStage::Length);
    assert_eq!(reader.wants(), 4);
    let reader = match reader.feed(&mut conn, Some(vec![0x02, 0x01, 0, 0])).unwrap() {
        ReadStep::More(next) => next,
        other => panic!("{:?}", other),
    };
    assert_eq!(reader.stage, ReadStage::Payload { length: 258 });
    assert_eq!(reader.wants(), 258);
    let payload = vec![7u8; 258];
    match reader.feed(&mut conn, Some(payload.clone())).unwrap() {
        ReadStep::Done(got) => assert_eq!(got, payload),
        other => panic!("{:?}", other),
    }
    assert!(!conn.broken);
}

#[test]
fn failed_read_breaks_the_session() {
    let mut conn = Session { id: 3, broken: false };
    let reader = read_query(&conn).unwrap();
    match reader.feed(&mut conn, None) {
        Err(Error::Session { step }) => assert_eq!(step, FrameStep::Token),
        other => panic!("{:?}", other),
    }
    assert!(conn.broken);
    let mut conn = Session { id: 3, broken: false };
    let reader = read_query(&conn).unwrap();
    assert!(reader.feed(&mut conn, Some(vec![1, 2, 3])).is_err());
    assert!(conn.broken);
}

#[test]
fn envelope_with_term_and_options() {
    let text = wrap_query(
        QueryType::Start,
        Some(String::from("[15,[\"t\"]]")),
        Some(String::from("{\"db\":[14,[\"test\"]]}")),
    );
    assert_eq!(text, "[1,[15,[\"t\"]],{\"db\":[14,[\"test\"]]}]");
}

#[test]
fn envelope_without_options() {
    assert_eq!(wrap_query(QueryType::Start, Some(String::from("1")), None), "[1,1]");
}

#[test]
fn envelope_of_type_alone() {
    assert_eq!(wrap_query(QueryType::Continue, None, None), "[2]");
    assert_eq!(wrap_query(QueryType::Stop, None, None), "[3]");
    assert_eq!(wrap_query(QueryType::NoreplyWait, None, None), "[4]");
    assert_eq!(wrap_query(QueryType::ServerInfo, None, None), "[5]");
    assert_eq!(QueryType::ServerInfo.value(), 5);
}

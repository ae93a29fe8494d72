use panel_server::operation::{CommandSplit, Operation, OperationError, ParseError, QueryData};
use panel_server::contents::Content;

#[test]
fn parse_each_form() {
    assert!(matches!(Operation::new(b"\r\n"), Ok(Operation::Pass)));
    assert!(matches!(Operation::new(b"hello world\r\n"), Ok(Operation::RSetText(ref t)) if t == "hello world"));
    assert!(matches!(Operation::new(b"@1:2+hi there\r\n"),
        Ok(Operation::SetText { page: 1, line: 2, ref text }) if text == "hi there"));
    assert!(matches!(Operation::new(b"@12:34~\r\n"), Ok(Operation::DeleteText { page: 12, line: 34 })));
    assert!(matches!(Operation::new(b"@0:7?\r\n"), Ok(Operation::QueryText { page: 0, line: 7 })));
    assert!(matches!(Operation::new(b"@3~\r\n"), Ok(Operation::DeletePage { page: 3 })));
    assert!(matches!(Operation::new(b"@3?\r\n"), Ok(Operation::QueryPage { page: 3 })));
    match Operation::new(b"@1+128,32:aGVsbG8=\r\n") {
        Ok(Operation::SetPage { page, data, width, height }) => {
            assert_eq!((page, width, height), (1, 128, 32));
            assert_eq!(data, b"hello".to_vec());
        }
        other => panic!("unexpected {:?}", other),
    }
}

#[test]
fn parse_errors() {
    assert!(matches!(Operation::new(b"x"), Err(ParseError::InvalidLine)));
    assert!(matches!(Operation::new(b"abc\n"), Err(ParseError::InvalidLine)));
    assert!(matches!(Operation::new(b"@:1+x\r\n"), Err(ParseError::InvalidData(1))));
    assert!(matches!(Operation::new(b"@1:+x\r\n"), Err(ParseError::InvalidData(3))));
    assert!(matches!(Operation::new(b"@1:2!\r\n"), Err(ParseError::InvalidToken(4))));
    assert!(matches!(Operation::new(b"@1\r\n"), Err(ParseError::InvalidToken(2))));
    assert!(matches!(Operation::new(b"@1+8;1:AA==\r\n"), Err(ParseError::InvalidToken(4))));
    assert!(matches!(Operation::new(b"@1+8,1;AA==\r\n"), Err(ParseError::InvalidToken(6))));
    assert!(matches!(Operation::new(b"@1+4294967296,1:AA==\r\n"), Err(ParseError::InvalidData(3))));
    assert!(matches!(Operation::new(b"@99999999999999999999999:0?\r\n"), Err(ParseError::InvalidData(1))));
    assert!(matches!(Operation::new(b"@1+8,1:A\r\n"), Err(ParseError::InvalidBase64(7, _))));
}

#[test]
fn invalid_utf8_is_replaced() {
    match Operation::new(b"a\xffb\r\n") {
        Ok(Operation::RSetText(t)) => assert_eq!(t, "a\u{fffd}b"),
        other => panic!("unexpected {:?}", other),
    }
}

#[test]
fn error_texts() {
    assert_eq!(OperationError::Invalid.to_text(), "Invalid");
    assert_eq!(OperationError::PageOutOfBound(5, 0).to_text(), "PageOutOfBound:5@0");
    assert_eq!(OperationError::LineOutOfPage(123, 40).to_text(), "LineOutOfPage:123@40");
    assert_eq!(ParseError::InvalidLine.to_text(), "InvalidLine");
    assert_eq!(ParseError::UnexpectedEnd(0).to_text(), "UnexpectedEnd(0)");
    assert_eq!(ParseError::InvalidData(10).to_text(), "InvalidData(10)");
    assert_eq!(ParseError::InvalidToken(7).to_text(), "InvalidToken(7)");
}

#[test]
fn modify_query_result() {
    let mut c = Content::new(2);
    assert!(matches!(Operation::SetText { page: 0, line: 1, text: "t".to_string() }.modify(&mut c), Ok(QueryData::Nothing)));
    let q = Operation::QueryText { page: 0, line: 1 }.modify(&mut c);
    match q {
        Ok(q) => assert_eq!(q.get_text(), "t"),
        Err(e) => panic!("unexpected {:?}", e),
    }
    assert_eq!(QueryData::Nothing.get_text(), "");
    assert_eq!(Operation::QueryText { page: 0, line: 5 }.modify(&mut c).err(), Some(OperationError::LineOutOfPage(5, 2)));
    assert_eq!(Operation::DeletePage { page: 4 }.modify(&mut c).err(), Some(OperationError::PageOutOfBound(4, 1)));
}

#[test]
fn framer_yields_complete_commands() {
    let data = b"a\r\n\r\nb\rc\r\nrest\r";
    let mut sp = CommandSplit::new(data, 0);
    assert_eq!(sp.next(), Some(&b"a\r\n"[..]));
    assert_eq!(sp.next(), Some(&b"\r\n"[..]));
    assert_eq!(sp.next(), Some(&b"b\rc\r\n"[..]));
    assert_eq!(sp.next(), None);
    assert_eq!(sp.next(), None);
    assert_eq!(sp.index(), 10);
    let mut empty = CommandSplit::new(b"", 0);
    assert_eq!(empty.next(), None);
    assert_eq!(empty.index(), 0);
}

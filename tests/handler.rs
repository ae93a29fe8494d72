use panel_server::contents::{Content, Page};
use panel_server::manager::Manager;
use panel_server::server::Buf;

fn send(mgr: &mut Manager, input: &[u8]) -> Vec<u8> {
    let mut read = Buf::new(1024);
    assert_eq!(read.write_from_slice(input), input.len());
    let resp = mgr.handle_network(&mut read);
    resp.get(resp.readable()).to_vec()
}

fn line_of(mgr: &Manager, page: usize, line: usize) -> Option<String> {
    mgr.content().get(page).and_then(|p| p.get_text(line)).map(|s| s.to_string())
}

#[test]
fn scenario_root_text_then_query() {
    let mut mgr = Manager::new(Content::new(4));
    assert_eq!(send(&mut mgr, b"hello\r\n"), b"+\r\n".to_vec());
    assert_eq!(send(&mut mgr, b"@0:0?\r\n"), b"+hello\r\n".to_vec());
}

#[test]
fn scenario_page_out_of_bound() {
    let mut mgr = Manager::new(Content::new(4));
    assert_eq!(send(&mut mgr, b"@5:0+x\r\n"), b"-PageOutOfBound:5@0\r\n".to_vec());
    assert_eq!(mgr.content().len(), 0);
}

#[test]
fn scenario_line_out_of_page() {
    let mut mgr = Manager::new(Content::new(4));
    assert_eq!(send(&mut mgr, b"@0:9+x\r\n"), b"-LineOutOfPage:9@4\r\n".to_vec());
    assert_eq!(mgr.content().len(), 0);
}

#[test]
fn scenario_batch_in_order() {
    let mut mgr = Manager::new(Content::new(4));
    assert_eq!(send(&mut mgr, b"@0:0+a\r\n@0:0+b\r\n"), b"+\r\n+\r\n".to_vec());
    assert_eq!(line_of(&mgr, 0, 0), Some("b".to_string()));
}

#[test]
fn set_then_query_round_trip() {
    let mut mgr = Manager::new(Content::new(3));
    assert_eq!(send(&mut mgr, b"@0:2+X\r\n@0:2?\r\n"), b"+\r\n+X\r\n".to_vec());
    assert_eq!(send(&mut mgr, b"@1:1+second\r\n@1:1?\r\n@0:2?\r\n"), b"+\r\n+second\r\n+X\r\n".to_vec());
}

#[test]
fn partial_command_stays_unread() {
    let mut mgr = Manager::new(Content::new(4));
    let mut read = Buf::new(64);
    read.write_from_slice(b"@0:0+a\r\n@0:1+b");
    let resp = mgr.handle_network(&mut read);
    assert_eq!(resp.get(resp.readable()), b"+\r\n");
    assert_eq!(read.get(read.readable()), b"@0:1+b");
    assert_eq!(read.flip(), 6);
    read.write_from_slice(b"c\r\n");
    let resp = mgr.handle_network(&mut read);
    assert_eq!(resp.get(resp.readable()), b"+\r\n");
    assert_eq!(read.readable(), 0);
    assert_eq!(line_of(&mgr, 0, 1), Some("bc".to_string()));
}

#[test]
fn empty_line_is_pass() {
    let mut mgr = Manager::new(Content::new(4));
    assert_eq!(send(&mut mgr, b"\r\n"), b"+\r\n".to_vec());
    assert_eq!(mgr.content().len(), 0);
}

#[test]
fn delete_text_and_page() {
    let mut mgr = Manager::new(Content::new(2));
    send(&mut mgr, b"@0:0+a\r\n@0:1+b\r\n");
    assert_eq!(send(&mut mgr, b"@0:0~\r\n@0:0?\r\n@0:1?\r\n"), b"+\r\n+b\r\n-LineOutOfPage:1@1\r\n".to_vec());
    assert_eq!(send(&mut mgr, b"@3:0~\r\n"), b"-PageOutOfBound:3@1\r\n".to_vec());
    assert_eq!(send(&mut mgr, b"@0~\r\n@0~\r\n"), b"+\r\n-PageOutOfBound:0@0\r\n".to_vec());
    assert_eq!(mgr.content().len(), 0);
}

#[test]
fn bitmap_and_page_query_are_invalid() {
    let mut mgr = Manager::new(Content::new(2));
    assert_eq!(send(&mut mgr, b"@0+8,1:AA==\r\n@0?\r\n"), b"-Invalid\r\n-Invalid\r\n".to_vec());
}

#[test]
fn parse_errors_are_answered() {
    let mut mgr = Manager::new(Content::new(2));
    assert_eq!(send(&mut mgr, b"@x\r\n"), b"-InvalidData(1)\r\n".to_vec());
    assert_eq!(send(&mut mgr, b"@1!\r\n"), b"-InvalidToken(2)\r\n".to_vec());
    assert_eq!(send(&mut mgr, b"@1+8,1:!!\r\n"), b"-InvalidBase64(7)\r\n".to_vec());
}

#[test]
fn root_text_needs_a_line() {
    let mut mgr = Manager::new(Content::new(0));
    assert_eq!(send(&mut mgr, b"hi\r\n"), b"-LineOutOfPage:0@0\r\n".to_vec());
}

#[test]
fn preview_and_rotation() {
    let mut mgr = Manager::new(Content::new(1));
    assert!(mgr.preview().is_none());
    assert!(mgr.schedule_target().is_none());
    send(&mut mgr, b"a\r\n");
    assert!(mgr.preview().is_some());
    assert!(mgr.schedule_target().is_none());
    send(&mut mgr, b"@1:0+b\r\n@2:0+c\r\n");
    assert!(mgr.preview().is_none());
    assert_eq!(mgr.schedule_target(), Some(0));
    mgr.schedule_done();
    assert_eq!(mgr.schedule_target(), Some(1));
    mgr.schedule_done();
    mgr.schedule_done();
    assert_eq!(mgr.schedule_target(), Some(0));
    mgr.schedule_done();
    mgr.schedule_done();
    send(&mut mgr, b"@2~\r\n");
    assert_eq!(mgr.schedule_target(), Some(0));
}

#[test]
fn page_helpers() {
    let mut p = Page::new_text(2);
    assert_eq!(p.line_num(), 2);
    assert!(p.set_text(1, "x".to_string()));
    assert!(!p.set_text(2, "y".to_string()));
    assert_eq!(p.get_text(1), Some("x"));
    assert!(p.remove_text(0));
    assert_eq!(p.get_text(0), Some("x"));
    assert_eq!(p.line_num(), 1);
    match Page::new_image(9, 3) {
        Page::BImage { data, w, h } => {
            assert_eq!(data.len(), 6);
            assert_eq!((w, h), (9, 3));
        }
        _ => panic!("not a bitmap"),
    }
    assert_eq!(Page::Empty.line_num(), 0);
}

#[test]
fn content_set_and_remove_keep_contiguous() {
    let mut c = Content::new_with_capacity(2, 8);
    assert_eq!(c.line_limit(), 2);
    assert!(!c.set(1, Page::Empty));
    assert!(c.set(0, Page::Empty));
    assert!(c.set(1, Page::new_text(1)));
    assert!(c.set(0, Page::new_text(2)));
    assert!(!c.set(3, Page::Empty));
    assert_eq!(c.len(), 2);
    assert!(c.remove(2).is_none());
    assert_eq!(c.remove(0).map(|p| p.line_num()), Some(2));
    assert_eq!(c.len(), 1);
    assert_eq!(c.get(0).map(|p| p.line_num()), Some(1));
    assert!(c.get_mut(0).is_some());
    assert!(c.get_mut(1).is_none());
    assert!(c.get_mut_or_add(2, || Page::Empty).is_none());
    assert!(c.get_mut_or_add(1, || Page::new_text(5)).is_some());
    assert_eq!(c.get(1).map(|p| p.line_num()), Some(5));
}

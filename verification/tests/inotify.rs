use uapi::inotify_events;
use uapi::inotify_next;

fn event_bytes(wd: i32, mask: u32, cookie: u32, name: &[u8]) -> Vec<u8> {
    let mut v = Vec::new();
    v.extend_from_slice(&(wd as u32).to_le_bytes());
    v.extend_from_slice(&mask.to_le_bytes());
    v.extend_from_slice(&cookie.to_le_bytes());
    v.extend_from_slice(&(name.len() as u32).to_le_bytes());
    v.extend_from_slice(name);
    v
}

#[test]
fn parses_records_in_order() {
    let mut buf = event_bytes(1, 2, 3, b"abc\0");
    buf.extend_from_slice(&event_bytes(4, 5, 6, b""));
    let mut reader = &buf[..];

    let ev = inotify_next(&mut reader).unwrap();
    assert_eq!(ev.event.wd, 1);
    assert_eq!(ev.event.mask, 2);
    assert_eq!(ev.event.cookie, 3);
    assert_eq!(ev.event.len, 4);
    assert_eq!(ev.name(), b"abc");

    let ev = inotify_next(&mut reader).unwrap();
    assert_eq!(ev.event.wd, 4);
    assert_eq!(ev.event.len, 0);
    assert_eq!(ev.name(), b"");

    assert!(inotify_next(&mut reader).is_none());
}

#[test]
fn name_trimmed_at_first_nul() {
    // The name field is padded with nul bytes; the yielded name stops at
    // the first one.
    let buf = event_bytes(-1, 0, 0, b"hi\0\0\0\0");
    let mut reader = &buf[..];
    let ev = inotify_next(&mut reader).unwrap();
    assert_eq!(ev.event.wd, -1);
    assert_eq!(ev.event.len, 6);
    assert_eq!(ev.name(), b"hi");
    assert!(reader.is_empty());
}

#[test]
fn collects_all_events() {
    let mut buf = event_bytes(1, 0, 0, b"a\0");
    buf.extend_from_slice(&event_bytes(2, 0, 0, b"bc\0"));
    buf.extend_from_slice(&event_bytes(3, 0, 0, b""));
    let events = inotify_events(&buf[..]);
    assert_eq!(events.len(), 3);
    assert_eq!(events[0].name, b"a");
    assert_eq!(events[1].name, b"bc");
    assert_eq!(events[2].name, b"");
    assert_eq!(events[2].event.wd, 3);
}

#[test]
fn empty_buffer_yields_nothing() {
    let buf: Vec<u8> = Vec::new();
    assert!(inotify_events(&buf[..]).is_empty());
    let mut reader = &buf[..];
    assert!(inotify_next(&mut reader).is_none());
}

use uapi::ifinfomsg;
use uapi::nlattr;
use uapi::nlmsg_align;
use uapi::nlmsg_read;
use uapi::nlmsghdr;
use uapi::pod_read;
use uapi::Errno;
use uapi::NlmsgHeader;
use uapi::NlmsgHeaderExt;
use uapi::NlmsgWriter;

#[test]
fn align_values() {
    assert_eq!(nlmsg_align(0), 0);
    assert_eq!(nlmsg_align(1), 4);
    assert_eq!(nlmsg_align(4), 4);
    assert_eq!(nlmsg_align(5), 8);
    assert_eq!(nlmsg_align(16), 16);
}

#[test]
fn test_client_to_client() {
    let mut writer = NlmsgWriter::new(
        vec![0u8; 128],
        nlmsghdr {
            nlmsg_len: 0,
            nlmsg_type: 1,
            nlmsg_flags: 2,
            nlmsg_seq: 3,
            nlmsg_pid: 4,
        },
    )
    .unwrap();
    writer
        .nest(nlattr {
            nla_len: 0,
            nla_type: 5,
        })
        .unwrap();
    writer
        .nest(nlattr {
            nla_len: 0,
            nla_type: 6,
        })
        .unwrap();
    writer.write(&[1u8]).unwrap();
    writer.finalize_nested().unwrap();
    writer
        .nest(nlattr {
            nla_len: 0,
            nla_type: 7,
        })
        .unwrap();
    writer.write(b"hello world").unwrap();
    writer.finalize_nested().unwrap();
    writer.finalize_nested().unwrap();
    let (buf, size) = writer.finalize().unwrap();

    let mut reader = &buf[..size];
    let (_, header, mut payload) = nlmsghdr::read(&mut reader).unwrap();
    assert_eq!(header.nlmsg_type, 1);
    assert_eq!(header.nlmsg_flags, 2);
    assert_eq!(header.nlmsg_seq, 3);
    assert_eq!(header.nlmsg_pid, 4);
    {
        let (_, outer_attr, mut payload) = nlattr::read(&mut payload).unwrap();
        assert_eq!(outer_attr.nla_type, 5);
        {
            let (_, inner_attr, payload) = nlattr::read(&mut payload).unwrap();
            assert_eq!(inner_attr.nla_type, 6);
            assert_eq!(pod_read::<u8>(payload).unwrap(), 1);
        }
        {
            let (_, inner_attr, payload) = nlattr::read(&mut payload).unwrap();
            assert_eq!(inner_attr.nla_type, 7);
            assert_eq!(payload, b"hello world");
        }
        assert!(payload.is_empty());
    }
    assert!(payload.is_empty());
    assert!(reader.is_empty());
}

#[test]
fn nested_length_propagation() {
    // Closing a nested record grows the enclosing record by the aligned
    // parent length plus the child's length.
    let mut writer = NlmsgWriter::new(
        vec![0u8; 64],
        nlmsghdr {
            nlmsg_len: 0,
            nlmsg_type: 0,
            nlmsg_flags: 0,
            nlmsg_seq: 0,
            nlmsg_pid: 0,
        },
    )
    .unwrap();
    writer
        .nest(nlattr {
            nla_len: 0,
            nla_type: 5,
        })
        .unwrap();
    writer.write(&[9u8]).unwrap();
    // attribute header (4) + one byte payload
    assert_eq!(writer.finalize_nested().unwrap(), 5);
    let (buf, size) = writer.finalize().unwrap();
    // message header (16) + padded attribute (5 -> occupies 5, final
    // record unpadded)
    assert_eq!(size, 21);
    let (_, header, payload) = nlmsghdr::read(&mut &buf[..size]).unwrap();
    assert_eq!(header.nlmsg_len, 21);
    assert_eq!(payload.len(), 5);
}

#[test]
fn nlmsg_read_clamps_final_record() {
    // 5 bytes: a u32 plus one byte; the aligned advance would pass the
    // end and is clamped to it.
    let buf = [1u8, 0, 0, 0, 9];
    let mut reader = &buf[..];
    let (space, v) = nlmsg_read::<u32>(&mut reader).unwrap();
    assert_eq!((space, v), (4, 1));
    let mut reader = &buf[2..5];
    let (space, v) = nlmsg_read::<u16>(&mut reader).unwrap();
    assert_eq!((space, v), (3, 0));
    assert!(reader.is_empty());
}

#[test]
fn nlmsg_read_rejects_short_buffer() {
    let buf = [0u8; 3];
    let mut reader = &buf[..];
    assert!(nlmsg_read::<u32>(&mut reader).is_err());
    assert_eq!(reader.len(), 3);
}

#[test]
fn header_read_rejects_malformed() {
    // Declared length smaller than the aligned header.
    let mut buf = [0u8; 32];
    buf[0..2].copy_from_slice(&3u16.to_le_bytes());
    let mut reader = &buf[..];
    assert_eq!(
        nlattr::read(&mut reader).map(|_| ()),
        Err(Errno(22))
    );
    // Declared length beyond the end of the buffer.
    buf[0..2].copy_from_slice(&200u16.to_le_bytes());
    let mut reader = &buf[..];
    assert!(nlattr::read(&mut reader).is_err());
    assert_eq!(reader.len(), 32);
}

#[test]
fn writer_boundary() {
    // No room for the message header at all.
    assert!(NlmsgWriter::new(vec![0u8; 15], nlmsghdr {
        nlmsg_len: 0,
        nlmsg_type: 0,
        nlmsg_flags: 0,
        nlmsg_seq: 0,
        nlmsg_pid: 0,
    })
    .is_err());
    // A payload that exactly fills the buffer succeeds; one byte more
    // fails.
    let hdr = nlmsghdr {
        nlmsg_len: 0,
        nlmsg_type: 0,
        nlmsg_flags: 0,
        nlmsg_seq: 0,
        nlmsg_pid: 0,
    };
    let mut writer = NlmsgWriter::new(vec![0u8; 20], hdr).unwrap();
    assert!(writer.write(&[1u8; 4]).is_ok());
    let mut writer = NlmsgWriter::new(vec![0u8; 20], hdr).unwrap();
    assert_eq!(writer.write(&[1u8; 5]), Err(Errno(22)));
    // After the failed write nothing was consumed: the exact fit still
    // succeeds.
    assert!(writer.write(&[1u8; 4]).is_ok());
}

#[test]
fn header_trait_lengths() {
    let mut h = nlmsghdr {
        nlmsg_len: 7,
        nlmsg_type: 0,
        nlmsg_flags: 0,
        nlmsg_seq: 0,
        nlmsg_pid: 0,
    };
    assert_eq!(h.len().unwrap(), 7);
    h.set_len(21).unwrap();
    assert_eq!(h.nlmsg_len, 21);
    let mut a = nlattr {
        nla_len: 0,
        nla_type: 3,
    };
    a.set_len(9).unwrap();
    assert_eq!(a.len().unwrap(), 9);
    // A length that would truncate is rejected, never wrapped.
    assert_eq!(a.set_len(65536), Err(Errno(22)));
    assert_eq!(a.nla_len, 9);
    let mut unit = ();
    assert_eq!(NlmsgHeader::len(&unit).unwrap(), 0);
    assert!(NlmsgHeader::set_len(&mut unit, 1234).is_ok());
}

#[test]
fn write_obj_round_trip() {
    let info = ifinfomsg {
        ifi_family: 17,
        ifi_type: 0,
        ifi_index: -1,
        ifi_flags: 0x1003,
        ifi_change: 0,
    };
    let mut writer = NlmsgWriter::new(
        vec![0u8; 64],
        nlmsghdr {
            nlmsg_len: 0,
            nlmsg_type: 18,
            nlmsg_flags: 0x301,
            nlmsg_seq: 0,
            nlmsg_pid: 0,
        },
    )
    .unwrap();
    writer.write_obj(&info).unwrap();
    let (buf, size) = writer.finalize().unwrap();
    assert_eq!(size, 32);
    let mut reader = &buf[..size];
    let (_, header, mut payload) = nlmsghdr::read(&mut reader).unwrap();
    assert_eq!(header.nlmsg_len, 32);
    assert_eq!(header.nlmsg_type, 18);
    let (_, back) = nlmsg_read::<ifinfomsg>(&mut payload).unwrap();
    assert_eq!(back.ifi_family, 17);
    assert_eq!(back.ifi_index, -1);
    assert_eq!(back.ifi_flags, 0x1003);
    assert!(payload.is_empty());
}

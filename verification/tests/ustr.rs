use uapi::AsUstr;
use uapi::Bstr;
use uapi::Bytes;
use uapi::Ustr;
use uapi::Ustring;
use uapi::UstrPtr;

#[test]
fn bstr_basics() {
    let b = Bstr::from_str("abc");
    assert_eq!(b.as_bytes(), b"abc");
    assert_eq!(b.len(), 3);
    assert!(!b.is_empty());
    assert!(Bstr::empty().is_empty());
    assert_eq!(b.to_ustring().as_ustr().as_bytes_with_nul(), b"abc\0");
}

#[test]
fn bstr_as_str_round_trip() {
    let b = Bstr::from_bytes(b"hello");
    assert_eq!(b.as_str().unwrap(), "hello");
    // Invalid UTF-8 is rejected.
    let b = Bstr::from_bytes(&[0xff, 0xfe]);
    assert!(b.as_str().is_none());
}

#[test]
fn bstr_bytes_trait() {
    let b = Bstr::from_bytes(b"xy");
    assert_eq!(Bytes::bytes(&b), b"xy");
    let v: Vec<u8> = vec![1, 2, 3];
    assert_eq!(Bytes::bytes(&v), &[1, 2, 3]);
}

#[test]
fn ustr_construction() {
    assert!(Ustr::from_bytes(b"abc").is_none());
    assert!(Ustr::from_bytes(b"").is_none());
    let u = Ustr::from_bytes(b"abc\0").unwrap();
    assert_eq!(u.as_bytes_with_nul(), b"abc\0");
    assert_eq!(u.len_with_nul(), 4);
    assert_eq!(u.as_bstr().as_bytes(), b"abc");
    assert!(Ustr::from_str("abc").is_none());
    assert_eq!(
        Ustr::from_str("abc\0").unwrap().as_bytes_with_nul(),
        b"abc\0"
    );
}

#[test]
fn ustr_null_flag() {
    assert!(Ustr::null().is_null());
    assert!(!Ustr::empty().is_null());
    // Apart from is_null, the two are indistinguishable.
    assert_eq!(
        Ustr::null().as_bytes_with_nul(),
        Ustr::empty().as_bytes_with_nul()
    );
}

#[test]
fn ustring_push_and_vectors() {
    let mut s = Ustring::new();
    assert_eq!(s.as_ustr().as_bytes_with_nul(), b"\0");
    s.push(&b"hello ".to_vec());
    s.push(&Bstr::from_str("world"));
    assert_eq!(s.as_ustr().as_bytes_with_nul(), b"hello world\0");
    // Pushing nothing changes nothing.
    s.push(&Vec::new());
    assert_eq!(s.as_ustr().as_bytes_with_nul(), b"hello world\0");
}

#[test]
fn ustring_from_into_vec() {
    let s = Ustring::from_vec(b"abc".to_vec());
    assert_eq!(s.into_vec(), b"abc");
    let s = Ustring::from_vec(Vec::new());
    assert_eq!(s.into_vec_with_nul(), b"\0");
    let s = Ustring::from_vec_with_nul(b"abc\0".to_vec()).unwrap();
    assert_eq!(s.into_vec(), b"abc");
    assert_eq!(
        Ustring::from_vec_with_nul(b"abc".to_vec()).unwrap_err(),
        b"abc"
    );
}

#[test]
fn ustring_strings() {
    let s = Ustring::from_string("hello".to_string());
    assert_eq!(s.into_string().unwrap(), "hello");
    let s = Ustring::from_vec(vec![0xff, 0xfe]);
    let back = s.into_string().unwrap_err();
    assert_eq!(back.into_vec_with_nul(), &[0xff, 0xfe, 0][..]);
}

#[test]
fn ustring_capacity_and_reserve() {
    let s = Ustring::new();
    assert_eq!(s.capacity(), 0);
    let mut s = Ustring::from_vec(b"abc".to_vec());
    assert!(s.capacity() >= 3);
    s.reserve(100);
    assert!(s.capacity() >= 103);
    s.reserve_exact(200);
    assert!(s.capacity() >= 203);
    assert_eq!(s.into_vec(), b"abc");
}

#[test]
fn ustring_into_string_with_nul() {
    let s = Ustring::from_vec(b"hi".to_vec());
    assert_eq!(s.into_string_with_nul().unwrap(), "hi\0");
    let s = Ustring::from_vec(vec![0xc0]);
    let back = s.into_string_with_nul().unwrap_err();
    assert_eq!(back.into_vec_with_nul(), &[0xc0, 0][..]);
}

#[test]
fn ustr_ptr_holds_strings_in_order() {
    let mut p = UstrPtr::new();
    assert_eq!(p.len(), 0);
    p.push(Ustr::from_bytes(b"abc\0").unwrap());
    p.push(Ustr::from_bytes(b"def\0").unwrap());
    assert_eq!(p.len(), 2);
    assert_eq!(p.get(0).as_bytes_with_nul(), b"abc\0");
    assert_eq!(p.get(1).as_bytes_with_nul(), b"def\0");
    let s = Ustring::from_vec(b"xy".to_vec());
    assert_eq!(s.as_ustr().as_bytes_with_nul(), b"xy\0");
}

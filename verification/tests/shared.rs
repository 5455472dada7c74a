use iostub::IOStub;
use std::io::{Error, ErrorKind, Read};

#[test]
fn new_stub_reads_zero() {
    let mut stub = IOStub::new();
    let mut buf = [5u8; 3];
    assert_eq!(stub.read(&mut buf).unwrap(), 0);
    assert_eq!(buf, [5, 5, 5]);
}

#[test]
fn push_through_one_handle_is_read_through_its_clone() {
    let mut h1 = IOStub::new();
    let mut h2 = h1.clone();
    h1.push_read(b"one");
    let mut buf = [0u8; 8];
    assert_eq!(h2.read(&mut buf).unwrap(), 3);
    assert_eq!(&buf[..3], b"one");
}

#[test]
fn push_through_a_clone_is_read_through_the_first_handle() {
    let mut h1 = IOStub::new();
    let mut h2 = h1.clone();
    h2.push_read(b"two");
    h2.push_read_error(Error::new(ErrorKind::UnexpectedEof, "cut"));
    let mut buf = [0u8; 8];
    assert_eq!(h1.read(&mut buf).unwrap(), 3);
    assert_eq!(&buf[..3], b"two");
    let e = h1.read(&mut buf).unwrap_err();
    assert_eq!(e.kind(), ErrorKind::UnexpectedEof);
    assert_eq!(e.to_string(), "cut");
}

#[test]
fn a_read_through_one_handle_consumes_for_all() {
    let mut h1 = IOStub::new();
    let mut h2 = h1.clone();
    let mut h3 = h2.clone();
    h1.push_read(b"abcdef");
    let mut buf = [0u8; 2];
    assert_eq!(h2.read(&mut buf).unwrap(), 2);
    assert_eq!(&buf, b"ab");
    assert_eq!(h3.read(&mut buf).unwrap(), 2);
    assert_eq!(&buf, b"cd");
    assert_eq!(h1.read(&mut buf).unwrap(), 2);
    assert_eq!(&buf, b"ef");
    assert_eq!(h2.read(&mut buf).unwrap(), 0);
    assert_eq!(h3.read(&mut buf).unwrap(), 0);
}

#[test]
fn pushes_through_different_handles_keep_their_order() {
    let mut h1 = IOStub::new();
    let mut h2 = h1.clone();
    h1.push_read(b"a");
    h2.push_read(b"b");
    h1.push_read(b"c");
    let mut all = Vec::new();
    assert_eq!(h2.read_to_end(&mut all).unwrap(), 3);
    assert_eq!(all, Vec::from(b"abc"));
}

#[test]
fn separate_stubs_do_not_share() {
    let mut a = IOStub::new();
    let mut b = IOStub::new();
    a.push_read(b"mine");
    let mut buf = [0u8; 4];
    assert_eq!(b.read(&mut buf).unwrap(), 0);
    assert_eq!(a.read(&mut buf).unwrap(), 4);
    assert_eq!(&buf, b"mine");
}

#[test]
fn queue_outlives_the_handle_that_made_it() {
    let mut kept = {
        let mut first = IOStub::new();
        first.push_read(b"still here");
        first.clone()
    };
    let mut all = Vec::new();
    assert_eq!(kept.read_to_end(&mut all).unwrap(), 10);
    assert_eq!(all, Vec::from(b"still here"));
}

#[test]
fn stub_splits_a_chunk_over_short_reads() {
    let mut stub = IOStub::new();
    stub.push_read(b"ottersareamazing");
    let mut buf = [0u8; 6];
    assert_eq!(stub.read(&mut buf).unwrap(), 6);
    assert_eq!(&buf, b"otters");
    assert_eq!(stub.read(&mut buf).unwrap(), 6);
    assert_eq!(&buf, b"areama");
    assert_eq!(stub.read(&mut buf).unwrap(), 4);
    assert_eq!(&buf, b"zingma");
    assert_eq!(stub.read(&mut buf).unwrap(), 0);
}

#[test]
fn stub_reports_a_failure_once_with_kind_and_message() {
    let mut stub = IOStub::new();
    stub.push_read_error(Error::new(ErrorKind::PermissionDenied, "no entry"));
    stub.push_read(b"ok");
    let mut buf = [0u8; 2];
    let e = stub.read(&mut buf).unwrap_err();
    assert_eq!(e.kind(), ErrorKind::PermissionDenied);
    assert_eq!(e.to_string(), "no entry");
    assert_eq!(buf, [0, 0]);
    assert_eq!(stub.read(&mut buf).unwrap(), 2);
    assert_eq!(&buf, b"ok");
    assert_eq!(stub.read(&mut buf).unwrap(), 0);
}

#[test]
fn stub_reads_an_empty_chunk_as_zero() {
    let mut stub = IOStub::new();
    stub.push_read(b"");
    stub.push_read(b"after");
    let mut buf = [0u8; 5];
    assert_eq!(stub.read(&mut buf).unwrap(), 0);
    assert_eq!(stub.read(&mut buf).unwrap(), 5);
    assert_eq!(&buf, b"after");
}

#[test]
fn read_exact_collects_across_chunks() {
    let mut stub = IOStub::new();
    stub.push_read(b"ab");
    stub.push_read(b"cd");
    let mut buf = [0u8; 4];
    stub.read_exact(&mut buf).unwrap();
    assert_eq!(&buf, b"abcd");
}

use dhttp::content::RequestContent;

#[test]
fn read_hands_out_the_front() {
    let mut c = RequestContent::new(vec![1, 2, 3, 4, 5]);
    let mut buf = [0u8; 2];
    assert_eq!(c.read(&mut buf), 2);
    assert_eq!(buf, [1, 2]);
    assert_eq!(c.remaining(), 3);
    let mut big = [9u8; 5];
    assert_eq!(c.read(&mut big), 3);
    assert_eq!(big, [3, 4, 5, 9, 9]);
    assert_eq!(c.remaining(), 0);
    assert_eq!(c.read(&mut big), 0);
    assert_eq!(big, [3, 4, 5, 9, 9]);
}

#[test]
fn read_into_nothing_moves_nothing() {
    let mut c = RequestContent::new(vec![1, 2]);
    let mut none: [u8; 0] = [];
    assert_eq!(c.read(&mut none), 0);
    assert_eq!(c.into_bytes(), vec![1, 2]);
}

#[test]
fn write_is_accepted_and_forgotten() {
    let mut c = RequestContent::new(vec![7]);
    assert_eq!(c.write(b"HTTP/1.1 100 Continue\r\n\r\n"), 25);
    assert_eq!(c.write(b""), 0);
    assert_eq!(c.into_bytes(), vec![7]);
}

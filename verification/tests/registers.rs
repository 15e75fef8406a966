use flipvm::Register;

#[test]
fn test_encoding() {
    assert_eq!(Register::Zero as u16, 0);
    assert_eq!(Register::A as u16, 1);
    assert_eq!(Register::B as u16, 2);
    assert_eq!(Register::C as u16, 3);
    assert_eq!(Register::M as u16, 4);
    assert_eq!(Register::SP as u16, 5);
    assert_eq!(Register::PC as u16, 6);
    assert_eq!(Register::BP as u16, 7);
}

use gbaemu_core::shifter_operand::ShiftOperator;

#[test]
fn test_shift() {
    assert_eq!(ShiftOperator::RightShift.execute(1, 1, false), (0, true));
}

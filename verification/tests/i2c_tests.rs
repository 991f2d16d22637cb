use deskpi::i2c::{
    driver_power_step, matrix_disable_ops, matrix_enable_ops, matrix_init_ops,
    matrix_pixel_batches, shim_disable_ops, shim_enable_ops, shim_mode_ops, shim_pattern_ops,
    shim_pixel_batch, I2cOperation, PowerStep, MATRIX_ADDRESS, SHIM_ADDRESS,
};
use deskpi::sink::{DummySink, Sink};

#[test]
fn matrix_pixel_batches_prefix_each_page() {
    let first: Vec<u8> = vec![1; 180];
    let second: Vec<u8> = vec![2; 171];
    let (one, two) = matrix_pixel_batches(&first, &second);
    assert_eq!(one.len(), 4);
    assert!(matches!(one[0], I2cOperation::SetAddress(a) if a == MATRIX_ADDRESS));
    match &one[3] {
        I2cOperation::Write(d) => {
            assert_eq!(d.len(), 181);
            assert_eq!(d[0], 0);
            assert!(d[1..].iter().all(|&b| b == 1));
        }
        _ => panic!("expected the first page write"),
    }
    match &two[2] {
        I2cOperation::Write(d) => {
            assert_eq!(d.len(), 172);
            assert_eq!(d[0], 0);
            assert!(d[1..].iter().all(|&b| b == 2));
        }
        _ => panic!("expected the second page write"),
    }
}

#[test]
fn matrix_power_batches_have_expected_shape() {
    let on = matrix_enable_ops();
    assert_eq!(on.len(), 4);
    assert!(matches!(on[3], I2cOperation::WriteByte(0x00, 0x01)));
    let off = matrix_disable_ops();
    assert_eq!(off.len(), 10);
    match &off[3] {
        I2cOperation::Write(d) => assert_eq!(d, &vec![0u8; 181]),
        _ => panic!("expected the first page blank"),
    }
    assert!(matches!(off[9], I2cOperation::WriteByte(0x00, 0x00)));
}

#[test]
fn shim_batches_have_expected_shape() {
    let regfile: Vec<u8> = (0..144u8).collect();
    let batch = shim_pixel_batch(&regfile);
    assert!(matches!(batch[0], I2cOperation::SetAddress(a) if a == SHIM_ADDRESS));
    match &batch[1] {
        I2cOperation::Write(d) => {
            assert_eq!(d[0], 0x24);
            assert_eq!(&d[1..], &regfile[..]);
        }
        _ => panic!("expected the register file write"),
    }
    assert_eq!(shim_enable_ops().len(), 4);
    let off = shim_disable_ops();
    assert_eq!(off.len(), 147);
    assert!(matches!(off[1], I2cOperation::WriteByte(0x24, 0x00)));
    assert!(matches!(off[144], I2cOperation::WriteByte(0xb3, 0x00)));
    assert!(matches!(off[146], I2cOperation::WriteByte(0x0a, 0x00)));
}

#[test]
fn dummy_sink_swallows_lines() {
    let mut sink = DummySink;
    assert!(sink.send(b"{\"kind\":\"success\"}".to_vec()).is_ok());
}

#[test]
fn init_batches_have_expected_shape() {
    let matrix = matrix_init_ops();
    assert_eq!(matrix.len(), 23);
    assert!(matches!(matrix[0], I2cOperation::SetAddress(a) if a == MATRIX_ADDRESS));
    match &matrix[7] {
        I2cOperation::Write(d) => {
            assert_eq!(d.len(), 181);
            assert_eq!(d[0], 0x00);
            assert!(d[1..].iter().all(|&b| b == 0x20));
        }
        _ => panic!("expected the first scaling page"),
    }
    assert!(matches!(matrix[22], I2cOperation::WriteByte(0x00, 0x00)));
    let mode = shim_mode_ops();
    assert_eq!(mode.len(), 4);
    assert!(matches!(mode[0], I2cOperation::SetAddress(a) if a == SHIM_ADDRESS));
    let pattern = shim_pattern_ops();
    assert_eq!(pattern.len(), 19);
    assert!(matches!(pattern[2], I2cOperation::WriteByte(0x01, 0xbf)));
    assert!(matches!(pattern[18], I2cOperation::WriteByte(0x11, 0x00)));
}

#[test]
fn power_step_toggles_only_on_disagreement() {
    assert_eq!(driver_power_step(true, false), PowerStep::Enable);
    assert_eq!(driver_power_step(false, true), PowerStep::Disable);
    assert_eq!(driver_power_step(true, true), PowerStep::Keep);
    assert_eq!(driver_power_step(false, false), PowerStep::Keep);
}

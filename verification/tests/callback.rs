use audio_engine::{prepare_scratch, to_unsigned, write_signed, write_unsigned};

#[test]
fn signed_samples_shift_to_unsigned() {
    assert_eq!(to_unsigned(0), 32768);
    assert_eq!(to_unsigned(-16384), 16384);
    assert_eq!(to_unsigned(32767), 65535);
    assert_eq!(to_unsigned(-32768), 0);
    assert_eq!(to_unsigned(1), 32769);
    assert_eq!(to_unsigned(-1), 32767);
}

#[test]
fn scratch_is_cleared_to_silence() {
    let mut scratch = vec![7i16, -3, 12];
    prepare_scratch(&mut scratch, 5);
    assert_eq!(scratch, vec![0i16; 5]);
    prepare_scratch(&mut scratch, 2);
    assert_eq!(scratch, vec![0i16; 2]);
    prepare_scratch(&mut scratch, 0);
    assert!(scratch.is_empty());
}

#[test]
fn signed_buffer_takes_samples_in_order() {
    let mut output = [9i16; 4];
    write_signed(&mut output, &[1, -2, 3, -4]);
    assert_eq!(output, [1, -2, 3, -4]);
}

#[test]
fn unsigned_buffer_takes_converted_samples_in_order() {
    let mut output = [9u16; 4];
    write_unsigned(&mut output, &[0, -32768, 32767, -1]);
    assert_eq!(output, [32768, 0, 65535, 32767]);
}

#[test]
fn short_mix_leaves_the_rest_of_the_buffer() {
    let mut signed = [9i16; 4];
    write_signed(&mut signed, &[1, 2]);
    assert_eq!(signed, [1, 2, 9, 9]);
    let mut unsigned = [9u16; 3];
    write_unsigned(&mut unsigned, &[0]);
    assert_eq!(unsigned, [32768, 9, 9]);
}

#[test]
fn long_mix_is_cut_to_the_buffer() {
    let mut signed = [9i16; 2];
    write_signed(&mut signed, &[1, 2, 3]);
    assert_eq!(signed, [1, 2]);
    let mut unsigned = [9u16; 1];
    write_unsigned(&mut unsigned, &[-32768, 5]);
    assert_eq!(unsigned, [0]);
    let mut empty: [u16; 0] = [];
    write_unsigned(&mut empty, &[1, 2]);
    assert_eq!(empty, []);
}

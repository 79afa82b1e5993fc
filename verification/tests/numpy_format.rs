use particle_sim::numpy::{format_shape, write_npy_prefix, F32Bits, F64Bits, Numpy, NumpyDType, Vec3Bits};

fn vec3(x: f32, y: f32, z: f32) -> Vec3Bits {
    Vec3Bits { x: x.to_bits(), y: y.to_bits(), z: z.to_bits() }
}

#[test]
fn format_shape_of_no_dimensions_keeps_only_the_closing_bracket() {
    assert_eq!(format_shape(&[]), ")");
}

#[test]
fn format_shape_of_one_dimension() {
    assert_eq!(format_shape(&[5]), "(5,)");
}

#[test]
fn format_shape_of_two_dimensions() {
    assert_eq!(format_shape(&[1000, 3]), "(1000, 3,)");
}

#[test]
fn format_shape_of_zero_and_large_dimensions() {
    assert_eq!(format_shape(&[0, 10, 18446744073709551615]), "(0, 10, 18446744073709551615,)");
}

#[test]
fn dtype_descriptors() {
    assert_eq!(<F32Bits as NumpyDType>::DTYPE, "<f4");
    assert_eq!(<F64Bits as NumpyDType>::DTYPE, "<f8");
}

#[test]
fn header_of_vectors() {
    let vs = [vec3(1.0, 2.0, 3.0), vec3(4.0, 5.0, 6.0)];
    let a: &[Vec3Bits] = &vs;
    assert_eq!(a.shape(), vec![2, 3]);
    assert_eq!(
        a.get_header(),
        b"{'descr': '<f4', 'fortran_order': False, 'shape': (2, 3,) }".to_vec()
    );
}

#[test]
fn header_of_floats_and_rows() {
    let fs = [F32Bits(0), F32Bits(1), F32Bits(2)];
    let a: &[F32Bits] = &fs;
    assert_eq!(a.shape(), vec![3]);
    assert_eq!(a.get_header(), b"{'descr': '<f4', 'fortran_order': False, 'shape': (3,) }".to_vec());

    let rows = [[vec3(0.0, 0.0, 0.0); 4]; 2];
    let r: &[[Vec3Bits; 4]] = &rows;
    assert_eq!(r.shape(), vec![2, 4, 3]);
    assert_eq!(
        r.get_header(),
        b"{'descr': '<f4', 'fortran_order': False, 'shape': (2, 4, 3,) }".to_vec()
    );

    let frows = [[F32Bits(7); 5]; 1];
    let f: &[[F32Bits; 5]] = &frows;
    assert_eq!(f.shape(), vec![1, 5]);
}

#[test]
fn vectors_are_written_little_endian_component_by_component() {
    let vs = [vec3(1.0, -2.0, 0.5)];
    let a: &[Vec3Bits] = &vs;
    let mut out = Vec::new();
    a.write(&mut out);
    assert_eq!(
        out,
        vec![0x00, 0x00, 0x80, 0x3f, 0x00, 0x00, 0x00, 0xc0, 0x00, 0x00, 0x00, 0x3f]
    );
}

#[test]
fn rows_are_written_row_after_row() {
    let rows = [[F32Bits(0x04030201), F32Bits(0x08070605)], [F32Bits(0x0c0b0a09), F32Bits(0x100f0e0d)]];
    let r: &[[F32Bits; 2]] = &rows;
    let mut out = vec![0xaa];
    r.write(&mut out);
    assert_eq!(out, vec![0xaa, 1, 2, 3, 4, 5, 6, 7, 8, 9, 10, 11, 12, 13, 14, 15, 16]);
}

#[test]
fn npy_file_layout() {
    let vs = [vec3(1.0, 2.0, 3.0), vec3(4.0, 5.0, 6.0)];
    let a: &[Vec3Bits] = &vs;
    let header = a.get_header();
    assert_eq!(header.len(), 59);
    let mut out = Vec::new();
    a.write_npy(&mut out);
    // magic and version
    assert_eq!(&out[0..8], &[0x93, b'N', b'U', b'M', b'P', b'Y', 3, 0]);
    // padded header: 59 bytes of text, 64 - (10 + 59) % 64 - 1 = 58 spaces, newline
    let padded_len = u32::from_le_bytes([out[8], out[9], out[10], out[11]]) as usize;
    assert_eq!(padded_len, 59 + 58 + 1);
    assert_eq!(&out[12..12 + 59], &header[..]);
    assert!(out[12 + 59..12 + 117].iter().all(|&b| b == b' '));
    assert_eq!(out[12 + 117], b'\n');
    // the padding aims at a 10-byte preamble; the written preamble has 12 bytes
    assert_eq!((12 + padded_len) % 64, 2);
    // data follows
    assert_eq!(out.len(), 12 + padded_len + 24);
    assert_eq!(&out[12 + padded_len..12 + padded_len + 4], &1.0f32.to_le_bytes());
}

#[test]
fn prefix_with_header_one_byte_short_of_a_block() {
    // (10 + 53) % 64 == 63: no padding spaces, only the newline
    let header = vec![b'x'; 53];
    let mut out = Vec::new();
    write_npy_prefix(header, &mut out);
    assert_eq!(out.len(), 12 + 54);
    assert_eq!(&out[8..12], &[54, 0, 0, 0]);
    assert_eq!(out[12 + 53], b'\n');
}

#[test]
fn prefix_with_header_just_past_a_block() {
    // (10 + 55) % 64 == 1: 62 padding spaces
    let header = vec![b'x'; 55];
    let mut out = Vec::new();
    write_npy_prefix(header, &mut out);
    assert_eq!(out.len(), 12 + 55 + 62 + 1);
    assert_eq!(&out[8..12], &[118, 0, 0, 0]);
}

#[test]
fn data_length_matches_shape() {
    let rows = [[vec3(0.0, 1.0, 2.0); 3]; 5];
    let r: &[[Vec3Bits; 3]] = &rows;
    let mut out = Vec::new();
    r.write(&mut out);
    let elems: usize = r.shape().iter().product();
    assert_eq!(out.len(), 4 * elems);
}

#[test]
fn different_shapes_give_different_texts() {
    assert_ne!(format_shape(&[1, 23]), format_shape(&[12, 3]));
    assert_ne!(format_shape(&[12]), format_shape(&[1, 2]));
    assert_ne!(format_shape(&[]), format_shape(&[0]));
    assert_eq!(format_shape(&[12, 3]), "(12, 3,)");
}

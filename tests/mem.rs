use openpgp::types::MPI;
use openpgp::Protected;

#[test]
fn new_buffer_is_zeroed() {
    let p = Protected::new(5);
    assert_eq!(p.len(), 5);
    assert_eq!(p.as_slice(), &[0u8; 5]);
    assert!(Protected::new(0).is_empty());
}

#[test]
fn from_slice_copies_bytes() {
    let p = Protected::from_slice(&[1, 2, 3]);
    assert_eq!(p.as_slice(), &[1, 2, 3]);
    let q = Protected::from_vec(vec![9, 8]);
    assert_eq!(q.as_slice(), &[9, 8]);
}

#[test]
fn wipe_zeroes_and_keeps_length() {
    let mut p = Protected::from_slice(&[0xde, 0xad, 0xbe, 0xef]);
    p.wipe();
    assert_eq!(p.as_slice(), &[0u8; 4]);
}

#[test]
fn clone_is_an_independent_copy() {
    let mut p = Protected::from_slice(&[7, 7, 7]);
    let q = p.clone();
    p.wipe();
    assert_eq!(q.as_slice(), &[7, 7, 7]);
    assert_eq!(p.as_slice(), &[0, 0, 0]);
}

#[test]
fn mpi_keeps_its_magnitude() {
    let m = MPI::new(vec![0x01, 0x00, 0x01]);
    assert_eq!(m.value(), &[0x01, 0x00, 0x01]);
}

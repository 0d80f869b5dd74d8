use pets::pet_files::Destination;

const SHA256_OF_NOTHING: [u8; 32] = [
    0xe3, 0xb0, 0xc4, 0x42, 0x98, 0xfc, 0x1c, 0x14, 0x9a, 0xfb, 0xf4, 0xc8, 0x99, 0x6f, 0xb9,
    0x24, 0x27, 0xae, 0x41, 0xe4, 0x64, 0x9b, 0x93, 0x4c, 0xa4, 0x95, 0x99, 0x1b, 0x78, 0x52,
    0xb8, 0x55,
];

#[test]
fn fingerprint_is_the_sha256_of_the_content() {
    let dest = Destination::at("/dev/null".to_string(), Some("/dev".to_string()), false, false);
    let (source, target) = dest.fingerprints("/dev/null", true);
    assert_eq!(source, Some(SHA256_OF_NOTHING.to_vec()));
    assert_eq!(target, Some(SHA256_OF_NOTHING.to_vec()));
    assert_eq!(dest.needs_copy("/dev/null", true, &source, &target), None);
}

#[test]
fn fingerprint_of_what_cannot_be_read_is_none() {
    let dest = Destination::at(
        "/no/such/directory/here/file".to_string(),
        Some("/no/such/directory/here".to_string()),
        false,
        false,
    );
    let (source, target) = dest.fingerprints("/dev/null", true);
    assert_eq!(source, Some(SHA256_OF_NOTHING.to_vec()));
    assert_eq!(target, None);
    assert_eq!(dest.needs_copy("/dev/null", true, &source, &target), None);
}

#[test]
fn fingerprints_are_computed_only_where_they_decide() {
    let copy = Destination::at("/dev/null".to_string(), Some("/dev".to_string()), false, false);
    assert_eq!(copy.fingerprints("/dev/null", false), (None, None));
    let link = Destination::at("/dev/null".to_string(), Some("/dev".to_string()), true, false);
    assert_eq!(link.fingerprints("/dev/null", true), (None, None));
    assert_eq!(link.fingerprints("/dev/null", false), (None, None));
}

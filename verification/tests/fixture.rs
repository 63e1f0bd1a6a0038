use goldinals_merkle_tree::driver::commit_output;
use goldinals_merkle_tree::fixture::{
    create_proof_fixture, fixture_file_name, to_prefixed_hex, ProofSystem,
};

#[test]
fn hex_is_lower_case_two_digits_per_byte() {
    assert_eq!(to_prefixed_hex(&[0x01, 0xab, 0xff, 0x00, 0x9c]), "0x01abff009c");
    assert_eq!(to_prefixed_hex(&[1, 2, 3, 15, 16]), "0x0102030f10");
}

#[test]
fn hex_of_nothing_is_the_prefix() {
    assert_eq!(to_prefixed_hex(&[]), "0x");
}

#[test]
fn hex_covers_every_byte_value() {
    let all: Vec<u8> = (0..=255u8).collect();
    let text = to_prefixed_hex(&all);
    assert_eq!(text.len(), 2 + 512);
    let digits = "0123456789abcdef".as_bytes();
    for (i, byte) in all.iter().enumerate() {
        let pair = &text.as_bytes()[2 + 2 * i..2 + 2 * i + 2];
        assert_eq!(pair[0], digits[(byte / 16) as usize]);
        assert_eq!(pair[1], digits[(byte % 16) as usize]);
    }
}

#[test]
fn fixture_file_names() {
    assert_eq!(fixture_file_name(ProofSystem::Plonk), "plonk-fixture.json");
    assert_eq!(fixture_file_name(ProofSystem::Groth16), "groth16-fixture.json");
}

#[test]
fn fixture_takes_the_output_apart() {
    let root = [0x12u8; 32];
    let leaf = [0xefu8; 32];
    let output = commit_output(&root, &leaf, true);
    let fixture = create_proof_fixture(&output, String::from("0x00abc"), &[0xde, 0xad]);
    assert_eq!(fixture.root, format!("0x{}", "12".repeat(32)));
    assert_eq!(fixture.leaf, format!("0x{}", "ef".repeat(32)));
    assert!(fixture.is_valid);
    assert_eq!(fixture.vkey, "0x00abc");
    assert_eq!(
        fixture.public_values,
        format!("0x{}{}01", "12".repeat(32), "ef".repeat(32))
    );
    assert_eq!(fixture.proof, "0xdead");
}

#[test]
fn fixture_of_a_rejected_claim() {
    let output = commit_output(&[0u8; 32], &[0xffu8; 32], false);
    let fixture = create_proof_fixture(&output, String::new(), &[]);
    assert!(!fixture.is_valid);
    assert_eq!(fixture.vkey, "");
    assert_eq!(fixture.proof, "0x");
    assert_eq!(
        fixture.public_values,
        format!("0x{}{}00", "00".repeat(32), "ff".repeat(32))
    );
}

#[test]
fn fixture_reads_only_the_first_65_bytes_for_the_parts() {
    let mut values = commit_output(&[1u8; 32], &[2u8; 32], true);
    values.extend_from_slice(&[9, 9]);
    let fixture = create_proof_fixture(&values, String::from("k"), &[7]);
    assert_eq!(fixture.root, format!("0x{}", "01".repeat(32)));
    assert_eq!(fixture.leaf, format!("0x{}", "02".repeat(32)));
    assert!(fixture.is_valid);
    assert_eq!(
        fixture.public_values,
        format!("0x{}{}010909", "01".repeat(32), "02".repeat(32))
    );
    assert_eq!(fixture.proof, "0x07");
}

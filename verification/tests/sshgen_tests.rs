use gitsock::sshgen::{encode_openssh_public, generate_key_pair_bits, write_ssh_mpint,
    write_ssh_string};

#[test]
fn ssh_strings_are_length_prefixed() {
    let mut buf: Vec<u8> = Vec::new();
    write_ssh_string(&mut buf, &[1, 2, 3]);
    assert_eq!(buf, vec![0, 0, 0, 3, 1, 2, 3]);
    write_ssh_string(&mut buf, &[]);
    assert_eq!(buf, vec![0, 0, 0, 3, 1, 2, 3, 0, 0, 0, 0]);
}

#[test]
fn mpints_pad_a_set_top_bit() {
    let mut buf: Vec<u8> = Vec::new();
    write_ssh_mpint(&mut buf, &[0x80]);
    assert_eq!(buf, vec![0, 0, 0, 2, 0, 0x80]);

    let mut low: Vec<u8> = Vec::new();
    write_ssh_mpint(&mut low, &[0x7f]);
    assert_eq!(low, vec![0, 0, 0, 1, 0x7f]);

    let mut empty: Vec<u8> = Vec::new();
    write_ssh_mpint(&mut empty, &[]);
    assert_eq!(empty, vec![0, 0, 0, 0]);
}

#[test]
fn the_public_line_matches_the_openssh_encoding() {
    let e: Vec<u8> = vec![1, 0, 1];
    let n: Vec<u8> = vec![0xaa, 0xbb];
    let line = encode_openssh_public(&e, &n);
    assert_eq!(line, "ssh-rsa AAAAB3NzaC1yc2EAAAADAQABAAAAAwCquw==");
}

#[test]
fn generated_pairs_have_the_expected_shapes() {
    let (private_pem, public_ssh) = generate_key_pair_bits(512).expect("key generation");
    assert!(private_pem.contains("BEGIN RSA PRIVATE KEY"));
    assert!(public_ssh.starts_with("ssh-rsa "));
    assert!(public_ssh.len() > "ssh-rsa ".len());
}

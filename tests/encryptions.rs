use encryptor::encryptions::{
    check_target, decrypted_output, encrypted_output, CodecError, Direction, Encryption, TargetKind,
};
use encryptor::naming::{decrypted_path, encrypted_path};

fn key_material() -> (&'static [u8; 32], &'static [u8; 16]) {
    (b"lkwiekfgmjwkdjalwprktlwudkskdmkw", b"koskemwldkowmekw")
}

#[test]
fn encrypt_decrypt() {
    let (key, iv) = key_material();
    let encryption = Encryption::new(key, iv);
    let content = "Hello, i'm a test\n";
    let path = "/tmp/.tmpAbC123";

    let (enc_path, ciphertext) = encryption.encrypt_contents(path, content.as_bytes()).unwrap();
    assert_eq!(enc_path, format!("{}.enc", path));
    assert_ne!(ciphertext, content.as_bytes());

    let (dec_path, plaintext) = encryption.decrypt_contents(&enc_path, &ciphertext).unwrap();
    assert_eq!(dec_path, path);
    let decrypted_content = String::from_utf8(plaintext).unwrap();
    assert_eq!(decrypted_content.trim_end(), "Hello, i'm a test");
}

#[test]
fn file_dont_exist() {
    assert_eq!(check_target(TargetKind::Missing), Err(CodecError::NotAFile));
    assert_eq!(check_target(TargetKind::NotRegular), Err(CodecError::NotAFile));
    assert_eq!(check_target(TargetKind::RegularFile), Ok(()));
}

#[test]
fn round_trip_restores_contents_and_name() {
    let (key, iv) = key_material();
    let encryption = Encryption::new(key, iv);
    for len in [0usize, 1, 15, 16, 17, 100, 4096] {
        let content: Vec<u8> = (0..len).map(|i| (i * 7 % 256) as u8).collect();
        let (enc_path, ciphertext) = encryption.encrypt_contents("/dir/report.txt", &content).unwrap();
        let (dec_path, plaintext) = encryption.decrypt_contents(&enc_path, &ciphertext).unwrap();
        assert_eq!(plaintext, content);
        assert_eq!(dec_path, "/dir/report.txt");
    }
}

#[test]
fn padding_rounds_up_to_the_next_block() {
    let (key, iv) = key_material();
    let encryption = Encryption::new(key, iv);
    for len in [0usize, 1, 15, 16, 17, 31, 32, 33, 1000] {
        let content = vec![0x41u8; len];
        let out = encryption.transform(Direction::Encrypt, &content).unwrap();
        assert_eq!(out.len(), (len + 1 + 15) / 16 * 16);
    }
    assert_eq!(encryption.transform(Direction::Encrypt, b"").unwrap().len(), 16);
    assert_eq!(encryption.transform(Direction::Encrypt, &[1u8; 16]).unwrap().len(), 32);
}

#[test]
fn known_ciphertext() {
    let key = b"0123456789abcdef0123456789abcdef";
    let iv = b"1234567890abcdef";
    let encryption = Encryption::new(key, iv);
    let a = encryption.transform(Direction::Encrypt, b"Some Crypto Text").unwrap();
    let b = encryption.transform(Direction::Encrypt, b"Some Crypto Text").unwrap();
    assert_eq!(a, b);
    assert_eq!(a.len(), 32);
    assert_ne!(&a[..16], b"Some Crypto Text");
}

#[test]
fn wrong_key_fails_padding_check() {
    let (key, iv) = key_material();
    let right = Encryption::new(key, iv);
    let other_key = b"0123456789abcdef0123456789abcdef";
    let wrong = Encryption::new(other_key, iv);
    for content in [&b"Hello, i'm a test"[..], b"", b"0123456789abcdef", b"a longer message of several blocks"] {
        let ciphertext = right.transform(Direction::Encrypt, content).unwrap();
        assert_eq!(wrong.transform(Direction::Decrypt, &ciphertext), Err(CodecError::CipherError));
    }
}

#[test]
fn truncated_ciphertext_fails() {
    let (key, iv) = key_material();
    let encryption = Encryption::new(key, iv);
    let ciphertext = encryption.transform(Direction::Encrypt, b"Hello, i'm a test").unwrap();
    assert_eq!(
        encryption.transform(Direction::Decrypt, &ciphertext[..ciphertext.len() - 3]),
        Err(CodecError::CipherError)
    );
    assert_eq!(encryption.transform(Direction::Decrypt, b""), Err(CodecError::CipherError));
}

#[test]
fn destination_naming() {
    assert_eq!(encrypted_path("/dir/report.txt"), "/dir/report.txt.enc");
    assert_eq!(decrypted_path("/dir/report.txt.enc"), Some(String::from("/dir/report.txt")));
    assert_eq!(decrypted_path("notes.txt.enc"), Some(String::from("notes.txt")));
    assert_eq!(decrypted_path("/a.b/archive.tar.gz.enc"), Some(String::from("/a.b/archive.tar")));
    assert_eq!(decrypted_path("/dir.d/noext"), None);
    assert_eq!(decrypted_path("/dir/"), None);
    assert_eq!(encrypted_path(""), ".enc");
}

#[test]
fn decrypt_without_dot_is_a_name_error() {
    let (key, iv) = key_material();
    let encryption = Encryption::new(key, iv);
    let (_, ciphertext) = encryption.encrypt_contents("/dir/report", b"data").unwrap();
    assert_eq!(
        encryption.decrypt_contents("/dir.x/report", &ciphertext),
        Err(CodecError::NameDerivationError)
    );
}

#[test]
fn outputs_pass_cipher_errors_through() {
    assert_eq!(encrypted_output("/dir/report.txt", Err(CodecError::CipherError)), Err(CodecError::CipherError));
    assert_eq!(decrypted_output("/dir/report", Err(CodecError::CipherError)), Err(CodecError::CipherError));
}

#[test]
fn outputs_place_the_data() {
    assert_eq!(
        encrypted_output("/dir/report.txt", Ok(vec![1, 2, 3])),
        Ok((String::from("/dir/report.txt.enc"), vec![1, 2, 3]))
    );
    assert_eq!(
        decrypted_output("/dir/report.txt.enc", Ok(vec![4, 5])),
        Ok((String::from("/dir/report.txt"), vec![4, 5]))
    );
    assert_eq!(decrypted_output("/dir.x/report", Ok(vec![4, 5])), Err(CodecError::NameDerivationError));
}

#[test]
fn encrypted_file_lengths() {
    let (key, iv) = key_material();
    let encryption = Encryption::new(key, iv);
    let cases: [(&[u8], usize); 3] = [(b"", 16), (b"0123456789abcdef", 32), (b"Hello, i'm a test\n", 32)];
    for (content, expected) in cases {
        let (_, ciphertext) = encryption.encrypt_contents("/dir/report.txt", content).unwrap();
        assert_eq!(ciphertext.len(), expected);
    }
}

#[test]
fn decrypt_rejects_lengths_off_the_block() {
    let (key, iv) = key_material();
    let encryption = Encryption::new(key, iv);
    assert_eq!(encryption.decrypt_contents("/dir/report.txt.enc", b""), Err(CodecError::CipherError));
    assert_eq!(encryption.decrypt_contents("/dir/report.txt.enc", &[7u8; 17]), Err(CodecError::CipherError));
    assert_eq!(encryption.decrypt_contents("/dir/noext", &[7u8; 15]), Err(CodecError::CipherError));
}

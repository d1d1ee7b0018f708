//! AES-256-CBC encryption of file contents, and the decisions around it: which targets are
//! accepted, and where the result is written.
use vstd::prelude::*;
use openssl::error::ErrorStack;
use openssl::symm::{Cipher, Crypter, Mode};
use crate::naming::{decrypted_path, decrypted_path_of, encrypted_path, encrypted_path_of};

verus! {

#[verifier::external_type_specification]
#[verifier::external_body]
pub struct ExCrypter(Crypter);

#[verifier::external_type_specification]
#[verifier::external_body]
pub struct ExErrorStack(ErrorStack);

/// Size in bytes of an AES block, by which padding rounds the encrypted length.
pub const BLOCK_SIZE: usize = 16;

/// Largest content the cipher takes: its output buffer, one block longer, must fit in a
/// C `int`.
pub const MAX_CONTENT_LEN: usize = 2147483631;

/// The direction a transform runs in.
#[derive(Debug, Clone, Copy, PartialEq, Eq, Structural)]
pub enum Direction {
    Encrypt,
    Decrypt,
}

/// Why encrypting or decrypting a file failed.
#[derive(Debug, Clone, PartialEq, Eq)]
pub enum CodecError {
    /// The target does not exist or is not a regular file.
    NotAFile,
    /// Reading or writing a file failed, for the reason given.
    IoError(String),
    /// The cipher failed: on decryption, mostly a padding that does not check out
    /// (corrupted ciphertext, or another key).
    CipherError,
    /// The decrypted file's name cannot be derived: the final segment has no dot.
    NameDerivationError,
}

/// What a path names, as far as the codec cares.
#[derive(Debug, Clone, Copy, PartialEq, Eq, Structural)]
pub enum TargetKind {
    Missing,
    NotRegular,
    RegularFile,
}

/// What AES-256-CBC with PKCS#7 padding makes of `data` under `key` and `iv`, encrypting or
/// decrypting; `None` where decryption fails (a length that is no positive multiple of the
/// block, or a padding that does not check out).
pub uninterp spec fn aes_256_cbc_of(encrypt: bool, key: Seq<u8>, iv: Seq<u8>, data: Seq<u8>) -> Option<
    Seq<u8>,
>;

/// Length of the ciphertext of `len` bytes: padding adds one to sixteen bytes, up to the next
/// multiple of the block size.
pub open spec fn padded_len(len: nat) -> nat {
    (len / 16 + 1) * 16
}

/// An AES-256-CBC cipher context, with what it was set up with and what it has been fed and
/// has written so far.
pub struct AesCbc {
    crypter: Crypter,
    encrypt: Ghost<bool>,
    key: Ghost<Seq<u8>>,
    iv: Ghost<Seq<u8>>,
    fed: Ghost<Seq<u8>>,
    written: Ghost<Seq<u8>>,
}

impl AesCbc {
    pub closed spec fn encrypts(&self) -> bool {
        self.encrypt@
    }

    pub closed spec fn key(&self) -> Seq<u8> {
        self.key@
    }

    pub closed spec fn iv(&self) -> Seq<u8> {
        self.iv@
    }

    /// The input fed to the context so far.
    pub closed spec fn fed(&self) -> Seq<u8> {
        self.fed@
    }

    /// The output the context has written so far.
    pub closed spec fn written(&self) -> Seq<u8> {
        self.written@
    }

    /// Relies on `Cipher::aes_256_cbc` and `Crypter::new`: a fresh AES-256-CBC context with
    /// padding on, in the given direction. With a key and an IV of the sizes the cipher takes,
    /// OpenSSL's initialisation does not fail.
    #[verifier::external_body]
    fn new(direction: Direction, key: &[u8; 32], iv: &[u8; 16]) -> (r: Result<AesCbc, ErrorStack>)
        ensures
            r is Ok,
            r->Ok_0.encrypts() == (direction == Direction::Encrypt),
            r->Ok_0.key() == key@,
            r->Ok_0.iv() == iv@,
            r->Ok_0.fed() == Seq::<u8>::empty(),
            r->Ok_0.written() == Seq::<u8>::empty(),
    {
        let mode = match direction {
            Direction::Encrypt => Mode::Encrypt,
            Direction::Decrypt => Mode::Decrypt,
        };
        let crypter = Crypter::new(Cipher::aes_256_cbc(), mode, key, Some(iv))?;
        Ok(AesCbc { crypter, encrypt: Ghost(direction == Direction::Encrypt), key: Ghost(key@),
            iv: Ghost(iv@), fed: Ghost(Seq::empty()), written: Ghost(Seq::empty()) })
    }

    /// Relies on `Crypter::update`: on a fresh context, it feeds all of `input`, writes at most
    /// as many bytes (whole blocks) to the front of `output`, whose length stays as it was, and
    /// returns their number. It panics when `output` is shorter than the input plus a block or
    /// longer than a C `int` holds.
    #[verifier::external_body]
    fn update(&mut self, input: &[u8], output: &mut Vec<u8>) -> (r: Result<usize, ErrorStack>)
        requires
            old(self).fed() == Seq::<u8>::empty(),
            old(self).written() == Seq::<u8>::empty(),
            old(output).len() >= input.len() + BLOCK_SIZE,
            old(output).len() <= i32::MAX,
        ensures
            r is Ok,
            r->Ok_0 <= input.len(),
            final(output).len() == old(output).len(),
            final(self).encrypts() == old(self).encrypts(),
            final(self).key() == old(self).key(),
            final(self).iv() == old(self).iv(),
            final(self).fed() == input@,
            final(self).written() == final(output)@.subrange(0, r->Ok_0 as int),
    {
        self.crypter.update(input, output.as_mut_slice())
    }

    /// Relies on `Crypter::finalize`: it checks and strips the padding when decrypting, adds it
    /// when encrypting, and writes the last bytes into `output` from `start` on, leaving what
    /// stands before `start` and the length as they were. What was written before and what it
    /// writes make up the whole result. Encrypting always succeeds; decrypting fails on a length
    /// that is no positive multiple of the block.
    #[verifier::external_body]
    fn finalize(&mut self, output: &mut Vec<u8>, start: usize) -> (r: Result<usize, ErrorStack>)
        requires
            start <= old(output).len(),
            old(output).len() - start >= BLOCK_SIZE,
        ensures
            final(output).len() == old(output).len(),
            final(output)@.subrange(0, start as int) == old(output)@.subrange(0, start as int),
            r is Ok <==> aes_256_cbc_of(
                old(self).encrypts(),
                old(self).key(),
                old(self).iv(),
                old(self).fed(),
            ) is Some,
            r is Ok ==> r->Ok_0 <= old(output).len() - start && old(self).written()
                + final(output)@.subrange(start as int, start + r->Ok_0)
                == aes_256_cbc_of(
                old(self).encrypts(),
                old(self).key(),
                old(self).iv(),
                old(self).fed(),
            )->Some_0,
            old(self).encrypts() ==> r is Ok && aes_256_cbc_of(
                true,
                old(self).key(),
                old(self).iv(),
                old(self).fed(),
            )->Some_0.len() == padded_len(old(self).fed().len()),
            !old(self).encrypts() && (old(self).fed().len() == 0 || old(self).fed().len() % 16
                != 0) ==> r is Err,
    {
        self.crypter.finalize(&mut output[start..])
    }
}

/// Relies on `Cipher::block_size` of `Cipher::aes_256_cbc`: AES has 128-bit blocks.
#[verifier::external_body]
fn aes_block_size() -> (r: usize)
    ensures
        r == BLOCK_SIZE,
{
    Cipher::aes_256_cbc().block_size()
}

/// Whether the codec takes a target of this kind: only a regular file.
pub fn check_target(kind: TargetKind) -> (r: Result<(), CodecError>)
    ensures
        kind == TargetKind::RegularFile ==> r is Ok,
        kind != TargetKind::RegularFile ==> r == Err::<(), CodecError>(CodecError::NotAFile),
{
    match kind {
        TargetKind::RegularFile => Ok(()),
        _ => Err(CodecError::NotAFile),
    }
}

/// Key material of AES-256-CBC: a 32-byte key and a 16-byte initialisation vector.
#[derive(Debug)]
pub struct Encryption<'a> {
    pub key: &'a [u8; 32],
    pub iv: &'a [u8; 16],
}

impl<'a> Encryption<'a> {
    pub fn new(key: &'a [u8; 32], iv: &'a [u8; 16]) -> (r: Self)
        ensures
            r.key == key,
            r.iv == iv,
    {
        Encryption { key, iv }
    }

    /// Runs the cipher over `content`: a working buffer one block longer than the input,
    /// cut to what the update and finalize steps report.
    pub fn transform(&self, direction: Direction, content: &[u8]) -> (r: Result<
        Vec<u8>,
        CodecError,
    >)
        requires
            content.len() <= MAX_CONTENT_LEN,
        ensures
            r is Ok <==> aes_256_cbc_of(
                direction == Direction::Encrypt,
                self.key@,
                self.iv@,
                content@,
            ) is Some,
            r is Ok ==> r->Ok_0@ == aes_256_cbc_of(
                direction == Direction::Encrypt,
                self.key@,
                self.iv@,
                content@,
            )->Some_0,
            r is Err ==> r->Err_0 == CodecError::CipherError,
            direction == Direction::Encrypt ==> r is Ok && r->Ok_0.len() == padded_len(
                content.len() as nat,
            ),
            direction == Direction::Decrypt && (content.len() == 0 || content.len() % 16 != 0)
                ==> r == Err::<Vec<u8>, CodecError>(CodecError::CipherError),
    {
        let mut cipher = match AesCbc::new(direction, self.key, self.iv) {
            Ok(c) => c,
            Err(_) => return Err(CodecError::CipherError),
        };
        let block_size = aes_block_size();
        let mut buffer: Vec<u8> = vec![0u8; content.len() + block_size];
        let count = match cipher.update(content, &mut buffer) {
            Ok(n) => n,
            Err(_) => return Err(CodecError::CipherError),
        };
        let rest = match cipher.finalize(&mut buffer, count) {
            Ok(n) => n,
            Err(_) => return Err(CodecError::CipherError),
        };
        buffer.truncate(count + rest);
        Ok(buffer)
    }

    /// Encrypts the contents of the file at `path`: the ciphertext and the path it is written
    /// to, `path` with `.enc` appended. Encryption always succeeds.
    pub fn encrypt_contents(&self, path: &str, content: &[u8]) -> (r: Result<
        (String, Vec<u8>),
        CodecError,
    >)
        requires
            content.len() <= MAX_CONTENT_LEN,
        ensures
            r is Ok,
            r->Ok_0.0@ == encrypted_path_of(path@),
            r->Ok_0.1@ == aes_256_cbc_of(true, self.key@, self.iv@, content@)->Some_0,
            r->Ok_0.1.len() == padded_len(content.len() as nat),
    {
        encrypted_output(path, self.transform(Direction::Encrypt, content))
    }

    /// Decrypts the contents of the file at `path`: the plaintext and the path it is written
    /// to, in the same directory, named by the first two dot-separated tokens of the final
    /// segment. The cipher's failure comes first, then the failure to derive the name.
    pub fn decrypt_contents(&self, path: &str, content: &[u8]) -> (r: Result<
        (String, Vec<u8>),
        CodecError,
    >)
        requires
            content.len() <= MAX_CONTENT_LEN,
        ensures
            r is Ok <==> (aes_256_cbc_of(false, self.key@, self.iv@, content@) is Some
                && decrypted_path_of(path@) is Some),
            r is Ok ==> r->Ok_0.0@ == decrypted_path_of(path@)->Some_0 && r->Ok_0.1@
                == aes_256_cbc_of(false, self.key@, self.iv@, content@)->Some_0,
            aes_256_cbc_of(false, self.key@, self.iv@, content@) is None ==> r == Err::<
                (String, Vec<u8>),
                CodecError,
            >(CodecError::CipherError),
            aes_256_cbc_of(false, self.key@, self.iv@, content@) is Some && decrypted_path_of(
                path@,
            ) is None ==> r == Err::<(String, Vec<u8>), CodecError>(
                CodecError::NameDerivationError,
            ),
            content.len() == 0 || content.len() % 16 != 0 ==> r == Err::<
                (String, Vec<u8>),
                CodecError,
            >(CodecError::CipherError),
    {
        decrypted_output(path, self.transform(Direction::Decrypt, content))
    }
}

/// What encrypting the file at `path` yields once the cipher has run: its error, or the
/// ciphertext with the path it is written to.
pub fn encrypted_output(path: &str, ciphertext: Result<Vec<u8>, CodecError>) -> (r: Result<
    (String, Vec<u8>),
    CodecError,
>)
    ensures
        ciphertext is Err ==> r is Err && r->Err_0 == ciphertext->Err_0,
        ciphertext is Ok ==> r is Ok && r->Ok_0.0@ == encrypted_path_of(path@) && r->Ok_0.1
            == ciphertext->Ok_0,
{
    match ciphertext {
        Ok(data) => Ok((encrypted_path(path), data)),
        Err(e) => Err(e),
    }
}

/// What decrypting the file at `path` yields once the cipher has run: its error first, then
/// a name error when the destination cannot be derived, else the plaintext with the path it
/// is written to.
pub fn decrypted_output(path: &str, plaintext: Result<Vec<u8>, CodecError>) -> (r: Result<
    (String, Vec<u8>),
    CodecError,
>)
    ensures
        plaintext is Err ==> r is Err && r->Err_0 == plaintext->Err_0,
        plaintext is Ok && decrypted_path_of(path@) is None ==> r is Err && r->Err_0
            == CodecError::NameDerivationError,
        plaintext is Ok && decrypted_path_of(path@) is Some ==> r is Ok && r->Ok_0.0@
            == decrypted_path_of(path@)->Some_0 && r->Ok_0.1 == plaintext->Ok_0,
{
    match plaintext {
        Ok(data) => match decrypted_path(path) {
            Some(dest) => Ok((dest, data)),
            None => Err(CodecError::NameDerivationError),
        },
        Err(e) => Err(e),
    }
}

} // verus!

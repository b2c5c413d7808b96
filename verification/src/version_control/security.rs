//! Artifact integrity checking and the file-permission commands.
//!
//! The SHA-256 digest itself comes from an outside cryptography crate and is
//! only named here; the hex rendering is pinned down completely.

use vstd::prelude::*;

use crate::textutil::spec_views;

verus! {

/// The SHA-256 digest of a byte sequence.  The digest is a function of the
/// bytes alone; its value is not spelled out here.
pub uninterp spec fn spec_sha256(data: Seq<u8>) -> Seq<u8>;

/// Relies on `ring::digest::digest` with the SHA-256 algorithm: the digest
/// depends on the input bytes alone and is 32 bytes long.
#[verifier::external_body]
fn sha256_digest(data: &Vec<u8>) -> (r: Vec<u8>)
    ensures
        r@ == spec_sha256(data@),
        r@.len() == 32,
{
    ring::digest::digest(&ring::digest::SHA256, data.as_slice()).as_ref().to_vec()
}

/// The lowercase hex digit for a value below sixteen.
pub open spec fn spec_hex_char(d: nat) -> char {
    if d == 0 {
        '0'
    } else if d == 1 {
        '1'
    } else if d == 2 {
        '2'
    } else if d == 3 {
        '3'
    } else if d == 4 {
        '4'
    } else if d == 5 {
        '5'
    } else if d == 6 {
        '6'
    } else if d == 7 {
        '7'
    } else if d == 8 {
        '8'
    } else if d == 9 {
        '9'
    } else if d == 10 {
        'a'
    } else if d == 11 {
        'b'
    } else if d == 12 {
        'c'
    } else if d == 13 {
        'd'
    } else if d == 14 {
        'e'
    } else {
        'f'
    }
}

/// Lowercase hex rendering of a byte sequence: two digits per byte, high
/// nibble first.
pub open spec fn spec_hex_lower(data: Seq<u8>) -> Seq<char>
    decreases data.len(),
{
    if data.len() == 0 {
        Seq::empty()
    } else {
        seq![
            spec_hex_char((data.first() / 16) as nat),
            spec_hex_char((data.first() % 16) as nat),
        ] + spec_hex_lower(data.drop_first())
    }
}

/// Relies on data-encoding's `HEXLOWER.encode`: its symbols are
/// `0123456789abcdef` and each byte becomes two digits, high nibble first.
#[verifier::external_body]
fn hex_lower(data: &Vec<u8>) -> (r: String)
    ensures
        r@ == spec_hex_lower(data@),
{
    data_encoding::HEXLOWER.encode(data.as_slice())
}

/// An artifact is admissible exactly when the lowercase hex rendering of its
/// SHA-256 digest equals the checksum the manifest states for it.
pub open spec fn spec_checksum_ok(data: Seq<u8>, expected: Seq<char>) -> bool {
    spec_hex_lower(spec_sha256(data)) == expected
}

/// Compares the digest of the downloaded bytes against the manifest's
/// checksum.  True exactly when the artifact may move on to unpacking.
pub fn compare_hash(data: &Vec<u8>, hash: &str) -> (ok: bool)
    ensures
        ok == spec_checksum_ok(data@, hash@),
{
    let digest = sha256_digest(data);
    let rendered = hex_lower(&digest);
    let expected = hash.to_owned();
    rendered == expected
}

/// The `chmod` invocation that sets the given mode on the given file.
pub open spec fn spec_chmod_argv(mode: Seq<char>, file: Seq<char>) -> Seq<Seq<char>> {
    seq!["chmod"@, mode, file]
}

/// The `chown` invocation that hands the file to `user:group`.
pub open spec fn spec_chown_argv(user: Seq<char>, group: Seq<char>, file: Seq<char>) -> Seq<
    Seq<char>,
> {
    seq!["chown"@, user + ":"@ + group, file]
}

/// The two commands that set ownership and mode of a file: `chmod` first,
/// then `chown`.  The caller must not run `chown` when `chmod` failed, and
/// must treat any output on standard error as failure of that command.
pub fn set_file_permissions(
    file_loc: &str,
    permission_user: &str,
    permission_group: &str,
    file_permissions: &str,
) -> (r: (Vec<String>, Vec<String>))
    ensures
        spec_views(r.0@) == spec_chmod_argv(file_permissions@, file_loc@),
        spec_views(r.1@) == spec_chown_argv(permission_user@, permission_group@, file_loc@),
{
    let chmod: Vec<String> = vec![
        String::from_str("chmod"),
        file_permissions.to_owned(),
        file_loc.to_owned(),
    ];
    let owner = permission_user.to_owned().concat(":").concat(permission_group);
    let chown: Vec<String> = vec![String::from_str("chown"), owner, file_loc.to_owned()];
    proof {
        assert(spec_views(chmod@) =~= spec_chmod_argv(file_permissions@, file_loc@));
        assert(spec_views(chown@) =~= spec_chown_argv(
            permission_user@,
            permission_group@,
            file_loc@,
        ));
    }
    (chmod, chown)
}

} // verus!

//! Content checksums of watched files.
use crypto::digest::Digest;
use vstd::prelude::*;

verus! {

/// The MD5 digest of a byte string.
pub uninterp spec fn md5_of(data: Seq<u8>) -> Seq<u8>;

/// Relies on rust-crypto's `Md5` (`Digest::input`, then `Digest::result` into a
/// buffer of `output_bytes()` bytes): the 16-byte digest, a function of the
/// bytes alone.
#[verifier::external_body]
fn md5_digest(data: &Vec<u8>) -> (r: Vec<u8>)
    ensures
        r@ == md5_of(data@),
        r@.len() == 16,
{
    let mut hasher = crypto::md5::Md5::new();
    hasher.input(data.as_slice());
    let mut out: Vec<u8> = vec![0u8; hasher.output_bytes()];
    hasher.result(out.as_mut_slice());
    out
}

/// The checksum of a content: its MD5 digest.
pub fn checksum(data: &Vec<u8>) -> (r: Vec<u8>)
    ensures
        r@ == md5_of(data@),
        r@.len() == 16,
{
    md5_digest(data)
}

/// The lowercase hexadecimal digit of a value below 16.
pub open spec fn hex_digit(n: int) -> char {
    if n < 10 {
        (48 + n) as char
    } else {
        (87 + n) as char
    }
}

/// Lowercase hexadecimal text of a byte string, two digits per byte.
pub open spec fn hex_text(b: Seq<u8>) -> Seq<char> {
    Seq::new(2 * b.len(), |k: int| if k % 2 == 0 {
        hex_digit(b[k / 2] as int / 16)
    } else {
        hex_digit(b[k / 2] as int % 16)
    })
}

fn hex_char(n: u8) -> (c: char)
    requires
        n < 16,
    ensures
        c == hex_digit(n as int),
{
    if n < 10 {
        (48u8 + n) as char
    } else {
        (87u8 + n) as char
    }
}

/// Whether `md5` is the lowercase hexadecimal MD5 digest of `data`.
pub fn compare_md5(data: &Vec<u8>, md5: &str) -> (r: bool)
    ensures
        r == (md5@ == hex_text(md5_of(data@))),
{
    let digest = md5_digest(data);
    let ghost want = hex_text(digest@);
    let n = md5.unicode_len();
    if n != 32 {
        assert(want.len() == 32);
        return false;
    }
    let mut k: usize = 0;
    while k < 16
        invariant
            0 <= k <= 16,
            digest@.len() == 16,
            digest@ == md5_of(data@),
            want == hex_text(digest@),
            md5@.len() == 32,
            forall|j: int| 0 <= j < 2 * k ==> md5@[j] == want[j],
        decreases 16 - k,
    {
        let b = digest[k];
        let hi = hex_char(b / 16);
        let lo = hex_char(b % 16);
        assert(want[2 * k as int] == hi);
        assert(want[2 * k + 1] == lo);
        let c0 = md5.get_char(2 * k);
        let c1 = md5.get_char(2 * k + 1);
        if c0 != hi || c1 != lo {
            assert(md5@[2 * k as int] != want[2 * k as int] || md5@[2 * k + 1] != want[2 * k + 1]);
            return false;
        }
        k += 1;
    }
    assert(md5@ =~= want);
    true
}

} // verus!

//! The closed set of checksum variants and a uniform way to run any of them.
use vstd::prelude::*;
use crate::checksum::{
    and_spec, checksum_and, checksum_f, checksum_mul, checksum_or, checksum_sub, checksum_sum,
    checksum_xnor, checksum_xor, combined_spec, mul_spec, or_spec, sub_spec, sum_spec, xnor_spec,
    xor_spec,
};
use crate::digests::{md5_digest, md5_of, sha1_digest, sha1_of, sha256_digest, sha256_of};

verus! {

/// A checksum variant: each maps a block to one digest byte.
#[derive(Clone, Copy, Debug, PartialEq, Eq, Structural)]
pub enum Algorithm {
    Sum,
    Subtract,
    Multiply,
    And,
    Or,
    Xor,
    Xnor,
    Combined,
    Sha1,
    Md5,
    Sha256,
}

/// The digest byte that `alg` gives for block `s`; a cryptographic digest
/// contributes its first byte.
pub open spec fn checksum_spec(alg: Algorithm, s: Seq<u8>) -> u8 {
    match alg {
        Algorithm::Sum => sum_spec(s),
        Algorithm::Subtract => sub_spec(s),
        Algorithm::Multiply => mul_spec(s),
        Algorithm::And => and_spec(s),
        Algorithm::Or => or_spec(s),
        Algorithm::Xor => xor_spec(s),
        Algorithm::Xnor => xnor_spec(s),
        Algorithm::Combined => combined_spec(s),
        Algorithm::Sha1 => sha1_of(s)[0],
        Algorithm::Md5 => md5_of(s)[0],
        Algorithm::Sha256 => sha256_of(s)[0],
    }
}

/// Runs the checksum variant `alg` over a non-empty block.
pub fn checksum(alg: Algorithm, block: &[u8]) -> (r: u8)
    requires
        block@.len() > 0,
    ensures
        r == checksum_spec(alg, block@),
{
    match alg {
        Algorithm::Sum => checksum_sum(block),
        Algorithm::Subtract => checksum_sub(block),
        Algorithm::Multiply => checksum_mul(block),
        Algorithm::And => checksum_and(block),
        Algorithm::Or => checksum_or(block),
        Algorithm::Xor => checksum_xor(block),
        Algorithm::Xnor => checksum_xnor(block),
        Algorithm::Combined => checksum_f(block),
        Algorithm::Sha1 => {
            let d = sha1_digest(block);
            d[0]
        },
        Algorithm::Md5 => {
            let d = md5_digest(block);
            d[0]
        },
        Algorithm::Sha256 => {
            let d = sha256_digest(block);
            d[0]
        },
    }
}

/// The display name of a checksum variant.
pub open spec fn name_spec(alg: Algorithm) -> Seq<char> {
    match alg {
        Algorithm::Sum => "Sum"@,
        Algorithm::Subtract => "Subtract"@,
        Algorithm::Multiply => "Multiply"@,
        Algorithm::And => "AND"@,
        Algorithm::Or => "OR"@,
        Algorithm::Xor => "XOR"@,
        Algorithm::Xnor => "XNOR"@,
        Algorithm::Combined => "F"@,
        Algorithm::Sha1 => "SHA1"@,
        Algorithm::Md5 => "MD5"@,
        Algorithm::Sha256 => "SHA256"@,
    }
}

impl Algorithm {
    /// The display name of this variant, as used in reports and file names.
    pub fn name(&self) -> (r: &'static str)
        ensures
            r@ == name_spec(*self),
    {
        match self {
            Algorithm::Sum => "Sum",
            Algorithm::Subtract => "Subtract",
            Algorithm::Multiply => "Multiply",
            Algorithm::And => "AND",
            Algorithm::Or => "OR",
            Algorithm::Xor => "XOR",
            Algorithm::Xnor => "XNOR",
            Algorithm::Combined => "F",
            Algorithm::Sha1 => "SHA1",
            Algorithm::Md5 => "MD5",
            Algorithm::Sha256 => "SHA256",
        }
    }
}

} // verus!

//! Certificate summaries: the fields shown for a peer certificate, the
//! expiry classification, and the simplified issuer name.  Decoding the
//! DER certificate and parsing dates happen outside; the decoded texts
//! are handed in.

use vstd::prelude::*;
use crate::strutil::{
    contains_seq, find_char, find_str, first_index, matches_at, spec_trim, trim,
};
use vstd::string::StrSliceExecFns;

verus! {

/// What one TLS handshake negotiated.
pub struct TlsInfo {
    pub tls_version: String,
    pub cipher_suite: String,
    pub peer_certificates: Vec<CertificateInfo>,
}

/// The decoded fields of one certificate.
pub struct CertificateInfo {
    pub subject: String,
    pub issuer: String,
    pub serial_number: String,
    pub validity_not_before: String,
    pub validity_not_after: String,
    pub subject_alt_names: Vec<String>,
    pub key_size: Option<usize>,
    pub signature_algorithm: String,
    pub public_key_algorithm: String,
}

/// The certificate summary written as a machine-readable record: the
/// queried host, the simplified issuer, the normalized validity window,
/// the days left and the expiry status beside the decoded fields.
pub struct CertificateInfoJson {
    pub host: String,
    pub issuer: String,
    pub not_before: String,
    pub not_after: String,
    pub days_left: i64,
    pub status: String,
    pub base: CertificateInfo,
}

/// The expiry status for a number of days left: negative means expired,
/// under thirty means expiring soon, anything else is fine.
pub open spec fn spec_validity_status(days_left: i64) -> Seq<char> {
    if days_left < 0 {
        "EXPIRED"@
    } else if days_left < 30 {
        "EXPIRING_SOON"@
    } else {
        "OK"@
    }
}

/// Classify a certificate's remaining lifetime.
pub fn validity_status(days_left: i64) -> (r: String)
    ensures
        r@ == spec_validity_status(days_left),
{
    if days_left < 0 {
        "EXPIRED".to_owned()
    } else if days_left < 30 {
        "EXPIRING_SOON".to_owned()
    } else {
        "OK".to_owned()
    }
}

/// The issuer text after the given attribute marker, cut at the next
/// marker and at the next comma, trimmed.
pub open spec fn spec_attr_value(issuer: Seq<char>, marker: Seq<char>, from: int) -> Seq<char> {
    let rest = issuer.subrange(from, issuer.len() as int);
    let cut1 = first_occurrence(rest, marker);
    let s1 = rest.subrange(0, cut1);
    let cut2 = first_index(s1, ',');
    spec_trim(s1.subrange(0, cut2))
}

/// Index of the first occurrence of `p` in `s`; `s.len()` when absent.
pub open spec fn first_occurrence(s: Seq<char>, p: Seq<char>) -> int {
    if contains_seq(s, p) {
        choose|i: int| matches_at(s, p, i) && forall|j: int| 0 <= j < i ==> !matches_at(s, p, j)
    } else {
        s.len() as int
    }
}

/// The simplified issuer: the value of the first `CN=` attribute, else
/// of the first `O=` attribute, else the whole issuer text.
pub open spec fn spec_simple_issuer(issuer: Seq<char>) -> Seq<char> {
    if contains_seq(issuer, "CN="@) {
        spec_attr_value(issuer, "CN="@, first_occurrence(issuer, "CN="@) + 3)
    } else if contains_seq(issuer, "O="@) {
        spec_attr_value(issuer, "O="@, first_occurrence(issuer, "O="@) + 2)
    } else {
        issuer
    }
}

proof fn lemma_first_occurrence(s: Seq<char>, p: Seq<char>, i: int)
    requires
        matches_at(s, p, i),
        forall|j: int| 0 <= j < i ==> !matches_at(s, p, j),
    ensures
        first_occurrence(s, p) == i,
{
    assert(contains_seq(s, p));
    let w = choose|k: int|
        matches_at(s, p, k) && forall|j: int| 0 <= j < k ==> !matches_at(s, p, j);
    if w < i {
        assert(!matches_at(s, p, w));
    } else if w > i {
        assert(!matches_at(s, p, i));
    }
}

fn attr_value(issuer: &str, marker: &str, from: usize) -> (r: String)
    requires
        from <= issuer@.len(),
    ensures
        r@ == spec_attr_value(issuer@, marker@, from as int),
{
    let ilen = issuer.unicode_len();
    let rest = issuer.substring_char(from, ilen);
    let rlen = rest.unicode_len();
    let cut1 = match find_str(rest, marker) {
        Some(i) => {
            proof {
                lemma_first_occurrence(rest@, marker@, i as int);
            }
            i
        },
        None => {
            proof {
                assert(first_occurrence(rest@, marker@) == rest@.len());
            }
            rlen
        },
    };
    let s1 = rest.substring_char(0, cut1);
    let s1len = s1.unicode_len();
    let cut2 = match find_char(s1, ',') {
        Some(i) => i,
        None => s1len,
    };
    let r = trim(s1.substring_char(0, cut2));
    proof {
        assert(s1@.subrange(0, cut2 as int) == issuer@.subrange(from as int, issuer@.len() as int)
            .subrange(0, cut1 as int).subrange(0, cut2 as int));
    }
    r
}

impl CertificateInfo {
    /// The short name of the issuer: its first common name, else its
    /// first organization, else the whole distinguished name.
    pub fn extract_simple_issuer(&self) -> (r: String)
        ensures
            r@ == spec_simple_issuer(self.issuer@),
    {
        let ilen = self.issuer.as_str().unicode_len();
        match find_str(self.issuer.as_str(), "CN=") {
            Some(i) => {
                proof {
                    lemma_first_occurrence(self.issuer@, "CN="@, i as int);
                    reveal_strlit("CN=");
                }
                attr_value(self.issuer.as_str(), "CN=", i + 3)
            },
            None => {
                match find_str(self.issuer.as_str(), "O=") {
                    Some(i) => {
                        proof {
                            lemma_first_occurrence(self.issuer@, "O="@, i as int);
                            reveal_strlit("O=");
                        }
                        attr_value(self.issuer.as_str(), "O=", i + 2)
                    },
                    None => crate::urlparse::clone_string(&self.issuer),
                }
            },
        }
    }
}


fn clone_vec_string(v: &Vec<String>) -> (r: Vec<String>)
    ensures
        r@.len() == v@.len(),
        forall|j: int| 0 <= j < r@.len() ==> r@[j]@ == v@[j]@,
{
    let mut out: Vec<String> = Vec::new();
    let n = v.len();
    let mut i: usize = 0;
    while i < n
        invariant
            0 <= i <= n,
            n == v@.len(),
            out@.len() == i,
            forall|j: int| 0 <= j < i ==> out@[j]@ == v@[j]@,
        decreases n - i,
    {
        out.push(crate::urlparse::clone_string(&v[i]));
        i = i + 1;
    }
    out
}

impl CertificateInfo {
    /// A value-preserving copy of the decoded fields.
    pub fn duplicate(&self) -> (r: CertificateInfo)
        ensures
            r.subject@ == self.subject@,
            r.issuer@ == self.issuer@,
            r.serial_number@ == self.serial_number@,
            r.validity_not_before@ == self.validity_not_before@,
            r.validity_not_after@ == self.validity_not_after@,
            r.subject_alt_names@.len() == self.subject_alt_names@.len(),
            r.key_size == self.key_size,
            r.signature_algorithm@ == self.signature_algorithm@,
            r.public_key_algorithm@ == self.public_key_algorithm@,
    {
        CertificateInfo {
            subject: crate::urlparse::clone_string(&self.subject),
            issuer: crate::urlparse::clone_string(&self.issuer),
            serial_number: crate::urlparse::clone_string(&self.serial_number),
            validity_not_before: crate::urlparse::clone_string(&self.validity_not_before),
            validity_not_after: crate::urlparse::clone_string(&self.validity_not_after),
            subject_alt_names: clone_vec_string(&self.subject_alt_names),
            key_size: self.key_size,
            signature_algorithm: crate::urlparse::clone_string(&self.signature_algorithm),
            public_key_algorithm: crate::urlparse::clone_string(&self.public_key_algorithm),
        }
    }

    /// Assemble the machine-readable summary.  The validity dates arrive
    /// already normalized and the days left already counted — date
    /// parsing and the clock live outside; the status classification and
    /// the simplified issuer are computed here.
    pub fn to_json_format(
        &self,
        host: &str,
        not_before: String,
        not_after: String,
        days_left: i64,
    ) -> (r: CertificateInfoJson)
        ensures
            r.host@ == host@,
            r.issuer@ == spec_simple_issuer(self.issuer@),
            r.not_before@ == not_before@,
            r.not_after@ == not_after@,
            r.days_left == days_left,
            r.status@ == spec_validity_status(days_left),
            r.base.issuer@ == self.issuer@,
    {
        let mut h = String::new();
        h.append(host);
        proof {
            assert(h@ =~= host@);
        }
        CertificateInfoJson {
            host: h,
            issuer: self.extract_simple_issuer(),
            not_before,
            not_after,
            days_left,
            status: validity_status(days_left),
            base: self.duplicate(),
        }
    }
}

/// The key size implied by a public-key algorithm text: an RSA key is as
/// long as its modulus; the common curves have fixed sizes; anything
/// else reports none.  A modulus too long to measure reports none.
pub open spec fn spec_key_size(alg: Seq<char>, rsa_modulus_bytes: Option<usize>) -> Option<
    usize,
> {
    if contains_seq(alg, "2.5.8.1.1"@) || contains_seq(alg, "rsa"@) {
        match rsa_modulus_bytes {
            Some(m) => if m * 8 <= usize::MAX {
                Some((m * 8) as usize)
            } else {
                None
            },
            None => None,
        }
    } else if contains_seq(alg, "ecPublicKey"@) || contains_seq(alg, "1.2.840.10045.2.1"@) {
        Some(256usize)
    } else if contains_seq(alg, "ed25519"@) || contains_seq(alg, "1.3.101.112"@) {
        Some(256usize)
    } else if contains_seq(alg, "ed448"@) || contains_seq(alg, "1.3.101.113"@) {
        Some(448usize)
    } else {
        None
    }
}

/// Derive the key size from the algorithm text and, for RSA, the length
/// of the modulus in bytes.
pub fn key_size_for_algorithm(alg: &str, rsa_modulus_bytes: Option<usize>) -> (r: Option<usize>)
    ensures
        r == spec_key_size(alg@, rsa_modulus_bytes),
{
    if crate::strutil::contains_str(alg, "2.5.8.1.1") || crate::strutil::contains_str(
        alg,
        "rsa",
    ) {
        match rsa_modulus_bytes {
            Some(m) => {
                if m <= usize::MAX / 8 {
                    Some(m * 8)
                } else {
                    None
                }
            },
            None => None,
        }
    } else if crate::strutil::contains_str(alg, "ecPublicKey") || crate::strutil::contains_str(
        alg,
        "1.2.840.10045.2.1",
    ) {
        Some(256)
    } else if crate::strutil::contains_str(alg, "ed25519") || crate::strutil::contains_str(
        alg,
        "1.3.101.112",
    ) {
        Some(256)
    } else if crate::strutil::contains_str(alg, "ed448") || crate::strutil::contains_str(
        alg,
        "1.3.101.113",
    ) {
        Some(448)
    } else {
        None
    }
}

} // verus!

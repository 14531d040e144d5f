//! Decisions around establishing the QUIC connection: how the server certificate is checked
//! and which resolved address is dialled.

use vstd::prelude::*;

verus! {

/// How the TLS client checks the server certificate.
#[derive(Debug, Clone, Copy, PartialEq, Eq, Structural)]
pub enum CertificateCheck {
    /// `--insecure`: no check.
    Skip,
    /// Against the certificates of `--cacert`.
    CaCertificates,
    /// Against the system's root certificates.
    Platform,
}

/// The certificate check for `--insecure` and `--cacert`: `--insecure` wins over `--cacert`,
/// and without either the system's roots are used.
pub fn certificate_check(insecure: bool, has_ca_cert: bool) -> (r: CertificateCheck)
    ensures
        r == (if insecure {
            CertificateCheck::Skip
        } else if has_ca_cert {
            CertificateCheck::CaCertificates
        } else {
            CertificateCheck::Platform
        }),
{
    if insecure {
        CertificateCheck::Skip
    } else if has_ca_cert {
        CertificateCheck::CaCertificates
    } else {
        CertificateCheck::Platform
    }
}

/// The position of the first IPv4 address among the resolved addresses (given by whether
/// each is IPv4), if any.
pub open spec fn first_ipv4(is_ipv4: Seq<bool>) -> Option<int>
    decreases is_ipv4.len(),
{
    if is_ipv4.len() == 0 {
        None
    } else {
        match first_ipv4(is_ipv4.drop_last()) {
            Some(i) => Some(i),
            None => if is_ipv4.last() { Some(is_ipv4.len() - 1) } else { None },
        }
    }
}

/// The resolved address to dial: the first IPv4 address, else the first address, else none
/// (IPv6 may not be routed where IPv4 is, and the resolver's order depends on the system).
pub fn pick_address(is_ipv4: &[bool]) -> (r: Option<usize>)
    ensures
        match first_ipv4(is_ipv4@) {
            Some(i) => r == Some(i as usize),
            None => r == (if is_ipv4@.len() > 0 { Some(0usize) } else { None::<usize> }),
        },
{
    let mut i: usize = 0;
    while i < is_ipv4.len()
        invariant
            i <= is_ipv4@.len(),
            first_ipv4(is_ipv4@.take(i as int)) is None,
        decreases is_ipv4@.len() - i,
    {
        proof {
            assert(is_ipv4@.take(i + 1).drop_last() =~= is_ipv4@.take(i as int));
        }
        if is_ipv4[i] {
            proof {
                lemma_first_ipv4_prefix(is_ipv4@, (i + 1) as nat);
            }
            return Some(i);
        }
        i = i + 1;
    }
    assert(is_ipv4@.take(i as int) =~= is_ipv4@);
    if is_ipv4.len() > 0 { Some(0) } else { None }
}

proof fn lemma_first_ipv4_prefix(s: Seq<bool>, k: nat)
    requires
        k <= s.len(),
        first_ipv4(s.take(k as int)) is Some,
    ensures
        first_ipv4(s) == first_ipv4(s.take(k as int)),
    decreases s.len() - k,
{
    if k < s.len() {
        assert(s.take((k + 1) as int).drop_last() =~= s.take(k as int));
        lemma_first_ipv4_prefix(s, k + 1);
    } else {
        assert(s.take(k as int) =~= s);
    }
}

} // verus!

use momo::moq::quic::{certificate_check, pick_address, CertificateCheck};

#[test]
fn insecure_wins_over_ca_certificates() {
    assert_eq!(certificate_check(true, true), CertificateCheck::Skip);
    assert_eq!(certificate_check(true, false), CertificateCheck::Skip);
    assert_eq!(certificate_check(false, true), CertificateCheck::CaCertificates);
    assert_eq!(certificate_check(false, false), CertificateCheck::Platform);
}

#[test]
fn ipv4_address_is_preferred() {
    assert_eq!(pick_address(&[false, false, true, true]), Some(2));
    assert_eq!(pick_address(&[true, false]), Some(0));
    assert_eq!(pick_address(&[false, false]), Some(0));
    assert_eq!(pick_address(&[]), None);
}

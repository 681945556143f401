use knowcodeextra::certificate::CertificateData;

#[test]
fn test_certificate_generation() {
    let cert = CertificateData::from_attempt("W6JSV", "20WPM-ABC123", "January 17, 2025");
    let svg = cert.to_svg();

    assert!(svg.contains("W6JSV"));
    assert!(svg.contains("20 WPM"));
    assert!(svg.contains("KNOW-CODE"));
    assert!(svg.contains("EXTRA"));
    assert!(svg.contains("January 17, 2025"));
    assert!(svg.contains("20WPM-ABC123"));
    assert!(svg.contains("Proving the code lives on"));
}

#[test]
fn certificate_lowercase_callsign_is_uppercased() {
    let cert = CertificateData::from_attempt("w6jsv", "#12", "March 3, 2025");
    let svg = cert.to_svg();
    assert!(svg.contains("W6JSV"));
    assert!(!svg.contains("w6jsv"));
    assert!(svg.contains("#12"));
}

#[test]
fn certificate_substitutes_every_placeholder() {
    let cert = CertificateData::from_attempt("K1ABC", "#7", "May 1, 2025");
    let svg = cert.to_svg();
    assert!(!svg.contains("{{CALLSIGN}}"));
    assert!(!svg.contains("{{DATE}}"));
    assert!(!svg.contains("{{CERT_NO}}"));
}

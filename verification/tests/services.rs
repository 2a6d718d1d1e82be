use backend::auth::is_indian_mobile;
use backend::media::ImageKind;
use backend::money::rupees;
use backend::payments::Razorpay;
use backend::pricing::bill;
use backend::rider::otp_matches;
use backend::slug::slugify;
use backend::walk::bin_order;
use hmac::Mac;

#[test]
fn indian_mobile_validation() {
    assert!(is_indian_mobile("+919876543210"));
    assert!(is_indian_mobile("+916000000000"));
    assert!(!is_indian_mobile("+915876543210"), "must start 6-9");
    assert!(!is_indian_mobile("+14155550100"), "non-Indian");
    assert!(!is_indian_mobile("+91987654321"), "too short");
    assert!(!is_indian_mobile("+9198765432100"), "too long");
    assert!(!is_indian_mobile("9876543210"), "missing country code");
}

#[test]
fn formats_indian_rupees() {
    assert_eq!(rupees(5_000), "₹50");
    assert_eq!(rupees(12_345), "₹123.45");
    assert_eq!(rupees(123_456_700), "₹12,34,567");
    assert_eq!(rupees(100_000), "₹1,000");
}

#[test]
fn sniffs_by_content() {
    assert_eq!(
        ImageKind::sniff(&[0xFF, 0xD8, 0xFF, 0xE0]),
        Some(ImageKind::Jpeg)
    );
    assert_eq!(
        ImageKind::sniff(b"\x89PNG\r\n\x1a\n...."),
        Some(ImageKind::Png)
    );
    assert_eq!(
        ImageKind::sniff(b"RIFF\0\0\0\0WEBPVP8 "),
        Some(ImageKind::Webp)
    );
    assert_eq!(ImageKind::sniff(b"<svg xmlns="), None);
    assert_eq!(ImageKind::sniff(b"GIF89a"), None);
}

#[test]
fn verifies_hmac_signatures() {
    let rp = Razorpay::new("rzp_test_key".into(), "whsec".into());
    let body = br#"{"event":"payment.captured"}"#;
    let mut mac = hmac::Hmac::<sha2::Sha256>::new_from_slice(b"whsec").unwrap();
    mac.update(body);
    let good = hex::encode(mac.finalize().into_bytes());
    assert!(rp.verify_webhook(body, &good));
    assert!(!rp.verify_webhook(b"tampered", &good));
    assert!(!rp.verify_webhook(body, "deadbeef"));
    assert!(!rp.verify_webhook(body, "not-hex"));
}

#[test]
fn otp_is_four_digits() {
    for _ in 0..200 {
        let otp = backend::order::delivery_otp();
        assert_eq!(otp.len(), 4);
        assert!(otp.bytes().all(|b| b.is_ascii_digit()));
    }
}

#[test]
fn bins_sort_naturally_with_unlocated_last() {
    let mut bins = vec![
        Some("B-01-1"),
        None,
        Some("A-10-1"),
        Some("A-2-3"),
        Some("a-2-1"),
    ];
    bins.sort_by(|a, b| bin_order(*a, *b));
    assert_eq!(
        bins,
        [
            Some("a-2-1"),
            Some("A-2-3"),
            Some("A-10-1"),
            Some("B-01-1"),
            None
        ]
    );
}

#[test]
fn delivery_fee_threshold() {
    assert_eq!(bill(19_899, 20_000).delivery_fee_paise, 3_000);
    assert_eq!(bill(19_899, 20_000).total_paise, 22_899);
    assert_eq!(bill(19_900, 20_000).delivery_fee_paise, 0);
    assert_eq!(bill(0, 0).total_paise, 0, "empty cart has no fee");
}

#[test]
fn otp_compare() {
    assert!(otp_matches("0421", "0421"));
    assert!(!otp_matches("0421", "0422"));
    assert!(!otp_matches("0421", "042"));
    assert!(!otp_matches("0421", ""));
}

#[test]
fn slugs() {
    assert_eq!(
        slugify(&["Amul Taaza Milk (500 ml)"]),
        "amul-taaza-milk-500-ml"
    );
    assert_eq!(slugify(&["Amul", "Butter", "100 g"]), "amul-butter-100-g");
    assert_eq!(slugify(&["  Fruits & Vegetables  "]), "fruits-vegetables");
    assert_eq!(slugify(&["दूध"]), "");
}

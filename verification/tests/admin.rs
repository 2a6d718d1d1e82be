use backend::auth::{
    check_active, check_sync_phone, code_name, finish_role_change, plan_role_change,
    seconds_left, staff_feed_store, AuthError, Role, RoleChangeError, RolePlan,
    CLOSE_FORBIDDEN, CLOSE_TOKEN_EXPIRED, CLOSE_UNAUTHORIZED,
};
use backend::catalog::{
    category_slug, check_category_move, check_mrp_cut, check_prices, check_store_price,
    product_slug, CatalogError,
};
use backend::config::{config_from, parse_u16, port_from, ConfigError, DEFAULT_PORT};
use backend::media::{check_upload, object_key, public_url, ImageKind, UploadError, MAX_IMAGE_BYTES};

#[test]
fn selling_price_may_not_exceed_mrp() {
    assert_eq!(check_prices(3_000, 2_800), Ok(()));
    assert_eq!(check_prices(3_000, 3_000), Ok(()));
    assert_eq!(check_prices(3_000, 3_100), Err(CatalogError::PriceAboveMrp));
}

#[test]
fn slugs_given_or_derived() {
    assert_eq!(category_slug(None, "Dairy, Bread & Eggs"), Ok("dairy-bread-eggs".to_string()));
    assert_eq!(category_slug(Some("custom"), "Dairy"), Ok("custom".to_string()));
    assert_eq!(category_slug(None, "दूध"), Err(CatalogError::SlugRequired));
    assert_eq!(category_slug(Some(""), "Dairy"), Err(CatalogError::SlugRequired));
    assert_eq!(
        product_slug(None, Some("Amul"), "Taaza Milk", "500 ml"),
        Ok("amul-taaza-milk-500-ml".to_string())
    );
    assert_eq!(
        product_slug(None, None, "Salted Butter", "100 g"),
        Ok("salted-butter-100-g".to_string())
    );
    assert_eq!(
        product_slug(Some("butter"), Some("Amul"), "Salted Butter", "100 g"),
        Ok("butter".to_string())
    );
    assert_eq!(product_slug(None, None, "घी", ""), Err(CatalogError::SlugRequired));
}

#[test]
fn store_prices_stay_within_mrp() {
    assert_eq!(check_store_price(Some(2_600), 3_000), Ok(()));
    assert_eq!(check_store_price(None, 3_000), Ok(()));
    assert_eq!(
        check_store_price(Some(3_100), 3_000),
        Err(CatalogError::StorePriceAboveMrp { mrp_paise: 3_000 })
    );
    assert_eq!(check_mrp_cut(Some(2_900), 2_850), Err(CatalogError::StorePriceAboveNewMrp {
        store_price_paise: 2_900
    }));
    assert_eq!(check_mrp_cut(Some(2_800), 2_850), Ok(()));
    assert_eq!(check_mrp_cut(None, 1), Ok(()));
    assert_eq!(check_category_move(true), Err(CatalogError::CategoryCycle));
    assert_eq!(check_category_move(false), Ok(()));
}

#[test]
fn catalog_messages() {
    let msg = CatalogError::StorePriceAboveNewMrp { store_price_paise: 2_900 }.message();
    assert!(msg.contains("₹29"));
    assert_eq!(
        msg,
        "a store sells this at ₹29, above the new MRP; lower that store price first"
    );
    assert_eq!(
        CatalogError::StorePriceAboveMrp { mrp_paise: 3_050 }.message(),
        "store price can't be above MRP (₹30.50)"
    );
    assert_eq!(CatalogError::SlugRequired.message(), "slug is required for this name");
    assert_eq!(CatalogError::PriceAboveMrp.message(), "selling price can't be above MRP");
}

#[test]
fn uploads_are_checked_by_content_and_size() {
    assert_eq!(check_upload(&[]), Err(UploadError::Empty));
    assert_eq!(check_upload(b"\x89PNG\r\n\x1a\n\0\0\0\rIHDR"), Ok(ImageKind::Png));
    assert_eq!(check_upload(&[0xFF, 0xD8, 0xFF]), Ok(ImageKind::Jpeg));
    assert_eq!(
        check_upload(b"<svg xmlns='http://www.w3.org/2000/svg'/>"),
        Err(UploadError::UnsupportedFormat)
    );
    let mut big = vec![0xFF, 0xD8, 0xFF];
    big.resize(MAX_IMAGE_BYTES + 1, 0);
    assert_eq!(check_upload(&big), Err(UploadError::TooLarge));
    big.truncate(MAX_IMAGE_BYTES);
    assert_eq!(check_upload(&big), Ok(ImageKind::Jpeg));
    assert_eq!(ImageKind::sniff(b"RIFF\0\0\0\0WEBP"), Some(ImageKind::Webp));
    assert_eq!(ImageKind::sniff(b"RIFF\0\0\0\0WEB"), None);
}

#[test]
fn upload_keys_and_urls() {
    assert_eq!(ImageKind::Jpeg.extension(), "jpg");
    assert_eq!(ImageKind::Png.extension(), "png");
    assert_eq!(ImageKind::Webp.extension(), "webp");
    let key = object_key("2024/06", "abc123", ImageKind::Png);
    assert_eq!(key, "2024/06/abc123.png");
    assert_eq!(public_url(&key), "/media/2024/06/abc123.png");
}

#[test]
fn ports_parse_as_unsigned_16_bit() {
    assert_eq!(parse_u16("8080"), Some(8080));
    assert_eq!(parse_u16("+80"), Some(80));
    assert_eq!(parse_u16("0065535"), Some(65_535));
    assert_eq!(parse_u16("65536"), None);
    assert_eq!(parse_u16(""), None);
    assert_eq!(parse_u16("+"), None);
    assert_eq!(parse_u16("-1"), None);
    assert_eq!(parse_u16(" 80"), None);
    assert_eq!(parse_u16("8o"), None);
}

#[test]
fn configuration_from_settings() {
    assert_eq!(port_from(None).unwrap(), DEFAULT_PORT);
    assert_eq!(port_from(Some("4000".into())).unwrap(), 4_000);
    match port_from(Some("http".into())) {
        Err(ConfigError::Invalid { name, value }) => {
            assert_eq!(name, "PORT");
            assert_eq!(value, "http");
        }
        other => panic!("unexpected {other:?}"),
    }
    let c = config_from(Some("postgres://db".into()), None).unwrap();
    assert_eq!(c.database_url, "postgres://db");
    assert_eq!(c.port, 3_000);
    assert!(matches!(config_from(None, Some("1".into())), Err(ConfigError::Missing("DATABASE_URL"))));
    assert!(matches!(
        config_from(Some("x".into()), Some("99999".into())),
        Err(ConfigError::Invalid { name: "PORT", .. })
    ));
}

#[test]
fn sign_in_requires_an_indian_mobile() {
    assert_eq!(check_sync_phone(Some("+919876543210")), Ok(()));
    assert_eq!(check_sync_phone(Some("+914012345678")), Err(AuthError::NotIndianMobile));
    assert_eq!(check_sync_phone(Some("+14155550100")), Err(AuthError::NotIndianMobile));
    assert_eq!(check_sync_phone(None), Err(AuthError::NoPhone));
    assert_eq!(check_active(true), Ok(()));
    assert_eq!(check_active(false), Err(AuthError::AccountDisabled));
}

#[test]
fn roles_and_their_stores() {
    assert_eq!(Role::Customer.as_str(), "CUSTOMER");
    assert_eq!(Role::Admin.as_str(), "ADMIN");
    assert!(Role::Picker.works_at_store());
    assert!(Role::Rider.works_at_store());
    assert!(!Role::Admin.works_at_store());
    assert_eq!(plan_role_change(1, 1, Role::Customer, None), Err(RoleChangeError::OwnRole));
    assert_eq!(
        plan_role_change(1, 2, Role::Picker, None),
        Err(RoleChangeError::StoreRequired { role: Role::Picker })
    );
    assert_eq!(plan_role_change(1, 2, Role::Rider, Some(9)), Ok(RolePlan::ActiveStore(9)));
    assert_eq!(plan_role_change(1, 2, Role::Admin, Some(9)), Ok(RolePlan::NoStore));
    assert_eq!(finish_role_change(RolePlan::ActiveStore(9), true), Ok(Some(9)));
    assert_eq!(
        finish_role_change(RolePlan::ActiveStore(9), false),
        Err(RoleChangeError::StoreInactive)
    );
    assert_eq!(finish_role_change(RolePlan::NoStore, false), Ok(None));
}

#[test]
fn socket_close_codes_and_feeds() {
    assert_eq!(code_name(CLOSE_FORBIDDEN), "FORBIDDEN");
    assert_eq!(code_name(CLOSE_TOKEN_EXPIRED), "TOKEN_EXPIRED");
    assert_eq!(code_name(CLOSE_UNAUTHORIZED), "UNAUTHORIZED");
    assert_eq!(code_name(1000), "UNAUTHORIZED");
    assert_eq!(staff_feed_store(Role::Picker, Some(4), Role::Picker), Some(4));
    assert_eq!(staff_feed_store(Role::Rider, Some(4), Role::Picker), None);
    assert_eq!(staff_feed_store(Role::Picker, None, Role::Picker), None);
    assert_eq!(seconds_left(1_060, 1_000), 60);
    assert_eq!(seconds_left(1_000, 1_060), 0);
    assert_eq!(seconds_left(i64::MAX, i64::MIN), u64::MAX);
}

#[test]
fn refusal_messages() {
    assert_eq!(
        RoleChangeError::StoreRequired { role: Role::Rider }.message(),
        "a RIDER must be assigned to a store"
    );
    assert_eq!(RoleChangeError::OwnRole.message(), "admins cannot change their own role");
    assert_eq!(RoleChangeError::StoreInactive.message(), "store does not exist or is inactive");
    assert_eq!(
        AuthError::NotIndianMobile.message(),
        "only Indian (+91) mobile numbers are supported"
    );
    assert_eq!(AuthError::AccountDisabled.message(), "this account has been disabled");
    assert_eq!(
        AuthError::NoPhone.message(),
        "token has no phone number; sign in with phone OTP"
    );
    assert_eq!(UploadError::TooLarge.message(), "image must be 5 MB or smaller");
    assert_eq!(
        UploadError::UnsupportedFormat.message(),
        "only JPEG, PNG or WebP images are allowed"
    );
    assert_eq!(UploadError::Empty.message(), "file is empty");
}

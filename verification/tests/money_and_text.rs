use backend::address::{address_limit_message, may_add_address, opt, MAX_ADDRESSES};
use backend::money::{decimal_chars, rupees};
use backend::pricing::{bill, total_of_lines, DELIVERY_FEE_PAISE, FREE_DELIVERY_ABOVE_PAISE};
use backend::records::inventory_input;
use backend::slug::slugify;
use backend::order::customer_reason;
use backend::text::{chars_of, is_alnum, is_digit, lower, same_text, string_of_chars, upper};

#[test]
fn rupees_small_amounts() {
    assert_eq!(rupees(0), "₹0");
    assert_eq!(rupees(5), "₹0.05");
    assert_eq!(rupees(99), "₹0.99");
    assert_eq!(rupees(100), "₹1");
    assert_eq!(rupees(2_900), "₹29");
    assert_eq!(rupees(19_900), "₹199");
}

#[test]
fn rupees_groups_lakhs_and_crores() {
    assert_eq!(rupees(99_999), "₹999.99");
    assert_eq!(rupees(1_000_000), "₹10,000");
    assert_eq!(rupees(10_000_000), "₹1,00,000");
    assert_eq!(rupees(1_234_567_890), "₹1,23,45,678.90");
}

#[test]
fn rupees_of_negative_amounts_keep_the_sign_on_both_parts() {
    assert_eq!(rupees(-12_345), "₹-,123.-45");
    assert_eq!(rupees(-5), "₹0.-5");
    assert_eq!(rupees(-100), "₹-1");
}

#[test]
fn decimal_digits() {
    assert_eq!(decimal_chars(0), vec!['0']);
    assert_eq!(decimal_chars(-42), vec!['-', '4', '2']);
    assert_eq!(
        decimal_chars(i64::MIN).into_iter().collect::<String>(),
        i64::MIN.to_string()
    );
}

#[test]
fn bill_below_and_above_the_threshold() {
    let b = bill(5_600, 6_000);
    assert_eq!(b.item_total_paise, 5_600);
    assert_eq!(b.mrp_total_paise, 6_000);
    assert_eq!(b.delivery_fee_paise, DELIVERY_FEE_PAISE);
    assert_eq!(b.total_paise, 8_600);
    assert_eq!(b.free_delivery_above_paise, FREE_DELIVERY_ABOVE_PAISE);
    let free = bill(26_500, 26_500);
    assert_eq!(free.delivery_fee_paise, 0);
    assert_eq!(free.total_paise, 26_500);
}

#[test]
fn line_totals_sum_price_times_quantity() {
    assert_eq!(total_of_lines(&[]), 0);
    assert_eq!(total_of_lines(&[(2_800, 2), (3_000, 1)]), 8_600);
    assert_eq!(total_of_lines(&[(-500, 3), (1_000, 0)]), -1_500);
}

#[test]
fn slug_edge_cases() {
    assert_eq!(slugify(&[]), "");
    assert_eq!(slugify(&["Dairy, Bread & Eggs"]), "dairy-bread-eggs");
    assert_eq!(slugify(&["--A--", "", "B"]), "a-b");
    assert_eq!(slugify(&["Café"]), "caf");
    let long = "x".repeat(200);
    assert_eq!(slugify(&[long.as_str()]), "x".repeat(120));
    let dashed = format!("{}-{}", "a".repeat(119), "bcd");
    assert_eq!(slugify(&[dashed.as_str()]), "a".repeat(119));
}

#[test]
fn ascii_character_helpers() {
    assert!(is_digit('7'));
    assert!(!is_digit('x'));
    assert!(is_alnum('Z'));
    assert!(!is_alnum('é'));
    assert_eq!(lower('Q'), 'q');
    assert_eq!(lower('é'), 'é');
    assert_eq!(upper('b'), 'B');
    assert_eq!(upper('-'), '-');
}

#[test]
fn trimming_and_text_round_trips() {
    assert_eq!(customer_reason(Some("  S-03 \t\n")), "S-03");
    assert_eq!(customer_reason(Some("\u{3000}wide\u{a0}")), "wide");
    assert_eq!(opt(&Some("\u{2003}\r\n".to_string())), None);
    assert_eq!(chars_of("दूध"), vec!['द', 'ू', 'ध']);
    assert_eq!(string_of_chars(&vec!['o', 'k']), "ok");
    assert!(same_text("INR", "INR"));
    assert!(!same_text("INR", "inr"));
}

#[test]
fn optional_address_fields_are_trimmed_or_dropped() {
    assert_eq!(opt(&Some("  Tower B ".to_string())), Some("Tower B"));
    assert_eq!(opt(&Some(" \t ".to_string())), None);
    assert_eq!(opt(&None), None);
}

#[test]
fn address_book_is_capped() {
    assert!(may_add_address(0));
    assert!(may_add_address(MAX_ADDRESSES - 1));
    assert!(!may_add_address(MAX_ADDRESSES));
    assert!(!may_add_address(MAX_ADDRESSES + 5));
    assert_eq!(address_limit_message(), "you can save up to 20 addresses");
}

#[test]
fn inventory_bin_location_is_trimmed() {
    let i = inventory_input(12, Some("  B-01-1 "), Some(2_600), true);
    assert_eq!(i.quantity, 12);
    assert_eq!(i.bin_location, Some("B-01-1"));
    assert_eq!(i.price_override_paise, Some(2_600));
    assert!(i.is_available);
    let j = inventory_input(0, None, None, false);
    assert_eq!(j.bin_location, None);
    assert!(!j.is_available);
}

#[test]
fn slug_parts_are_words_and_slugs_are_fixed_points() {
    assert_eq!(slugify(&["Amul", "Taaza Milk"]), slugify(&["Amul Taaza Milk"]));
    assert_eq!(slugify(&["a-", "-b"]), slugify(&["a- -b"]));
    for parts in [&["Amul Taaza Milk (500 ml)"][..], &["  Fruits & Vegetables  "], &["दूध"], &["A", "", "B-"]] {
        let s = slugify(parts);
        assert_eq!(slugify(&[s.as_str()]), s);
    }
}

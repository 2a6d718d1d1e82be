use backend::order::OrderStatus;
use backend::picking::{
    append_number, can_pack, check_in_store, check_mine, claim_failed, line_complete,
    line_complete_message, natural_key, pick_list_order, plan_pack, scan_error, store_of, Chunk,
    PickError, PickLineRow, ScanOutcome,
};
use backend::walk::{bin_order, line_after};
use std::cmp::Ordering;

fn line(product: u128, name: &str, bin: Option<&str>, qty: i32, picked: Option<i32>) -> PickLineRow {
    PickLineRow {
        product_id: product,
        name: name.to_string(),
        bin_location: bin.map(|b| b.to_string()),
        quantity: qty,
        picked_quantity: picked,
        unit_price_paise: 1_000,
        unit_mrp_paise: 1_500,
    }
}

fn key_text(key: &[Chunk]) -> Vec<String> {
    key.iter()
        .map(|c| match c {
            Chunk::Num(n) => format!("#{n}"),
            Chunk::Text(t) => t.clone(),
        })
        .collect()
}

#[test]
fn natural_keys_split_letters_and_numbers() {
    assert_eq!(key_text(&natural_key("a-10-1")), ["A", "#10", "#1"]);
    assert_eq!(key_text(&natural_key("B02x")), ["B", "#2", "X"]);
    assert_eq!(key_text(&natural_key("--")), Vec::<String>::new());
    assert_eq!(key_text(&natural_key("")), Vec::<String>::new());
    assert_eq!(
        key_text(&natural_key("A99999999999999999999999")),
        ["A", &format!("#{}", u64::MAX)]
    );
}

#[test]
fn bin_order_is_natural_and_puts_unlocated_last() {
    assert_eq!(bin_order(Some("A-2"), Some("A-10")), Ordering::Less);
    assert_eq!(bin_order(Some("a-2"), Some("A-02")), Ordering::Equal);
    assert_eq!(bin_order(Some("B-1"), Some("A-9")), Ordering::Greater);
    assert_eq!(bin_order(Some("A-1"), None), Ordering::Less);
    assert_eq!(bin_order(None, Some("A-1")), Ordering::Greater);
    assert_eq!(bin_order(None, None), Ordering::Equal);
    assert_eq!(bin_order(Some("1"), Some("A")), Ordering::Less);
}

#[test]
fn pick_list_walks_the_store_then_sorts_by_name() {
    let rows = vec![
        line(1, "Eggs", Some("B-10-1"), 1, None),
        line(2, "Milk", None, 1, None),
        line(3, "Bread", Some("A-02-3"), 1, None),
        line(4, "Atta", Some("B-2-1"), 1, None),
        line(5, "Butter", Some("b-02-01"), 1, None),
    ];
    let sorted = pick_list_order(rows);
    let names: Vec<&str> = sorted.iter().map(|l| l.name.as_str()).collect();
    assert_eq!(names, ["Bread", "Atta", "Butter", "Eggs", "Milk"]);
    assert!(line_after(&sorted[3], &sorted[1]));
    assert!(!line_after(&sorted[0], &sorted[4]));
}

#[test]
fn pick_list_sort_is_stable() {
    let rows = vec![
        line(1, "Milk", Some("C-1"), 1, None),
        line(2, "Milk", Some("C-01"), 2, None),
        line(3, "Curd", Some("C-1"), 1, None),
    ];
    let ids: Vec<u128> = pick_list_order(rows).iter().map(|l| l.product_id).collect();
    assert_eq!(ids, [3, 1, 2]);
    assert!(pick_list_order(vec![]).is_empty());
}

#[test]
fn packing_needs_every_line_counted_and_something_found() {
    let done = [line(1, "Milk", None, 2, Some(2)), line(2, "Eggs", None, 1, Some(0))];
    assert!(can_pack(OrderStatus::Picking, &done));
    assert!(!can_pack(OrderStatus::Confirmed, &done));
    let open = [line(1, "Milk", None, 2, Some(2)), line(2, "Eggs", None, 1, None)];
    assert!(!can_pack(OrderStatus::Picking, &open));
    let nothing = [line(1, "Milk", None, 2, Some(0))];
    assert!(!can_pack(OrderStatus::Picking, &nothing));
    assert!(!can_pack(OrderStatus::Picking, &[]));
}

#[test]
fn scanned_line_completes_at_its_quantity() {
    assert!(line_complete(3, Some(3)));
    assert!(!line_complete(3, Some(2)));
    assert!(!line_complete(3, None));
}

#[test]
fn pick_errors_have_status_code_and_message() {
    assert_eq!(PickError::NoStore.status(), 403);
    assert_eq!(PickError::NotFound.status(), 404);
    assert_eq!(PickError::ScanMismatch.status(), 422);
    assert_eq!(PickError::AlreadyClaimed.status(), 409);
    assert_eq!(PickError::LineComplete.code(), "LINE_COMPLETE");
    assert_eq!(PickError::NotYourOrder.code(), "NOT_YOUR_ORDER");
    assert_eq!(
        PickError::NotPicking { status: OrderStatus::Packed }.message(),
        "order is PACKED, not being picked"
    );
    assert_eq!(
        PickError::NotAllCounted.message(),
        "scan or count every item before packing"
    );
    assert_eq!(
        line_complete_message("Milk"),
        "all Milk already picked — put the extra back"
    );
}

#[test]
fn pickers_see_only_their_store() {
    assert_eq!(store_of(Some(4)), Ok(4));
    assert_eq!(store_of(None), Err(PickError::NoStore));
    assert_eq!(check_in_store(Some(4), Some(4)), Ok(()));
    assert_eq!(check_in_store(Some(4), Some(5)), Err(PickError::NotFound));
    assert_eq!(check_in_store(Some(4), None), Err(PickError::NotFound));
    assert_eq!(check_in_store(None, Some(4)), Err(PickError::NoStore));
}

#[test]
fn only_the_claiming_picker_may_work_the_order() {
    assert_eq!(check_mine(OrderStatus::Picking, Some(7), 7), Ok(()));
    assert_eq!(
        check_mine(OrderStatus::Picking, Some(8), 7),
        Err(PickError::NotYourOrder)
    );
    assert_eq!(check_mine(OrderStatus::Picking, None, 7), Err(PickError::NotYourOrder));
    assert_eq!(
        check_mine(OrderStatus::Confirmed, Some(7), 7),
        Err(PickError::NotPicking { status: OrderStatus::Confirmed })
    );
    assert!(claim_failed(OrderStatus::Picking));
    assert!(!claim_failed(OrderStatus::Packed));
}

#[test]
fn scans_that_count_nothing_are_refused() {
    assert_eq!(scan_error(&ScanOutcome::Counted(3)), None);
    assert_eq!(
        scan_error(&ScanOutcome::AlreadyComplete("Milk".into())),
        Some(PickError::LineComplete)
    );
    assert_eq!(scan_error(&ScanOutcome::NotInOrder), Some(PickError::ScanMismatch));
}

#[test]
fn packing_rebills_and_lists_what_was_missing() {
    let lines = [
        line(1, "Milk", None, 2, Some(2)),
        line(2, "Bread", None, 1, Some(1)),
        line(3, "Eggs", None, 2, Some(0)),
    ];
    let plan = plan_pack(&lines, 2, Some("  S-03 ")).unwrap();
    assert_eq!(plan.item_total_paise, 3_000);
    assert_eq!(plan.mrp_total_paise, 4_500);
    assert_eq!(plan.short_products, vec![3]);
    assert_eq!(plan.note, "packed in 2 bag(s); missing 2× Eggs");
    assert_eq!(plan.staging_slot.as_deref(), Some("S-03"));
}

#[test]
fn packing_note_lists_every_short_line() {
    let lines = [
        line(1, "Milk", None, 3, Some(1)),
        line(2, "Eggs", None, 2, Some(0)),
        line(3, "Atta", None, 1, Some(1)),
    ];
    let plan = plan_pack(&lines, 1, Some("   ")).unwrap();
    assert_eq!(plan.note, "packed in 1 bag(s); missing 2× Milk, 2× Eggs");
    assert_eq!(plan.short_products, vec![1, 2]);
    assert_eq!(plan.staging_slot, None);
    let full = [line(1, "Milk", None, 1, Some(1))];
    let plan = plan_pack(&full, 3, None).unwrap();
    assert_eq!(plan.note, "packed in 3 bag(s)");
    assert!(plan.short_products.is_empty());
}

#[test]
fn packing_refusals() {
    let uncounted = [line(1, "Milk", None, 1, None)];
    assert!(matches!(plan_pack(&uncounted, 1, None), Err(PickError::NotAllCounted)));
    let nothing = [line(1, "Milk", None, 1, Some(0))];
    assert!(matches!(plan_pack(&nothing, 1, None), Err(PickError::NothingPicked)));
    assert_eq!(PickError::NothingPicked.status(), 409);
}

#[test]
fn numbers_are_appended_in_decimal() {
    let mut s = String::from("n=");
    append_number(&mut s, -305);
    assert_eq!(s, "n=-305");
}

#[test]
fn natural_keys_ignore_case_and_separators() {
    assert_eq!(key_text(&natural_key("b-02-x")), key_text(&natural_key("B-02-X")));
    assert_eq!(key_text(&natural_key("A2")), key_text(&natural_key("A 2")));
    assert_eq!(key_text(&natural_key("A-2")), key_text(&natural_key("A_2")));
    assert_eq!(bin_order(Some("A2"), Some("a-2")), Ordering::Equal);
    assert_eq!(bin_order(Some("A-9"), Some("A-10")), Ordering::Less);
    assert_eq!(bin_order(Some("12"), Some("100")), Ordering::Less);
}

#[test]
fn uncounted_lines_are_refused_before_any_sum() {
    let mut huge = line(1, "Gold", None, 2, None);
    huge.unit_price_paise = i64::MAX;
    huge.unit_mrp_paise = i64::MAX;
    let lines = [huge, line(2, "Milk", None, 1, Some(1))];
    assert!(matches!(plan_pack(&lines, 1, None), Err(PickError::NotAllCounted)));
}

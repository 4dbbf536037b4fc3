use msrs::order::{aggregate_csv, aggregate_parts, aggregate_rows, OrderError, PartRequest};

const HEADER: &str = "ID,SKU,Qualifier A,Qualifier B,Qualifier C,Length,Width";

fn quantities(parts: &[PartRequest]) -> Vec<(String, usize)> {
    let mut v: Vec<(String, usize)> = parts
        .iter()
        .map(|p| (format!("{}|{}|{}|{:?}|{:?}", p.id, p.sku, p.qualifier_a, p.length, p.width), p.quantity))
        .collect();
    v.sort();
    v
}

#[test]
fn identical_rows_sum_into_one_request() {
    let text = format!("{}\n1,A,10,,,5,\n1,A,10,,,5,\n", HEADER);
    let parts = aggregate_csv(&text).unwrap();
    assert_eq!(parts.len(), 1);
    let p = &parts[0];
    assert_eq!(p.id, "1");
    assert_eq!(p.sku, "A");
    assert_eq!(p.qualifier_a, "10");
    assert_eq!(p.qualifier_b, "");
    assert_eq!(p.qualifier_c, "");
    assert_eq!(p.length, Some("5".to_string()));
    assert_eq!(p.width, None);
    assert_eq!(p.quantity, 2);
}

#[test]
fn rows_differing_in_other_columns_share_a_request() {
    let text = format!("{},Note\n7,B,1,2,3,,,first\n7,B,1,2,3,,,second\n7,B,1,2,3,,,third\n8,B,1,2,3,,,x\n", HEADER);
    let parts = aggregate_csv(&text).unwrap();
    assert_eq!(parts.len(), 2);
    let q = quantities(&parts);
    assert_eq!(q[0].1, 3);
    assert_eq!(q[1].1, 1);
}

#[test]
fn missing_column_is_reported_first_in_order() {
    let text = "ID,SKU,Qualifier A,Qualifier B,Qualifier C,Length\n1,A,,,,,\n";
    assert_eq!(aggregate_csv(text), Err(OrderError::MissingColumn("Width".to_string())));
    let text = "SKU,Qualifier A,Qualifier C\n";
    assert_eq!(aggregate_csv(text), Err(OrderError::MissingColumn("ID".to_string())));
    let text = "ID,SKU,Qualifier A,Qualifier C,Length,Width\n1,2,3,4,5,6\n";
    assert_eq!(aggregate_csv(text), Err(OrderError::MissingColumn("Qualifier B".to_string())));
}

#[test]
fn empty_text_has_no_columns() {
    assert_eq!(aggregate_csv(""), Err(OrderError::MissingColumn("ID".to_string())));
}

#[test]
fn missing_column_wins_over_bad_rows() {
    let text = "ID,SKU\n1,2,3,4\n5\n";
    assert_eq!(aggregate_csv(text), Err(OrderError::MissingColumn("Qualifier A".to_string())));
}

#[test]
fn ragged_rows_are_skipped() {
    let text = format!("{}\n1,A,10,,,5,\n1,A\n1,A,10,,,5,\n2,B,,,,,,extra\n", HEADER);
    let parts = aggregate_csv(&text).unwrap();
    assert_eq!(parts.len(), 1);
    assert_eq!(parts[0].id, "1");
    assert_eq!(parts[0].quantity, 2);
}

#[test]
fn aggregating_twice_gives_the_same_requests() {
    let text = format!("{}\n1,A,10,,,5,\n2,B,,,,,3\n1,A,10,,,5,\n2,B,,,,,3\n3,C,,,,,\n", HEADER);
    let a = aggregate_csv(&text).unwrap();
    let b = aggregate_csv(&text).unwrap();
    assert_eq!(quantities(&a), quantities(&b));
    assert_eq!(a.len(), 3);
}

#[test]
fn sizes_are_trimmed_and_blank_sizes_absent() {
    let text = format!("{}\n1,A,,,, 5 ,   \n1,A,,,,5,\n", HEADER);
    let parts = aggregate_csv(&text).unwrap();
    assert_eq!(parts.len(), 1);
    assert_eq!(parts[0].length, Some("5".to_string()));
    assert_eq!(parts[0].width, None);
    assert_eq!(parts[0].quantity, 2);
}

#[test]
fn other_fields_are_not_trimmed() {
    let text = format!("{}\n1,A,,,,,\n1, A,,,,,\n", HEADER);
    let parts = aggregate_csv(&text).unwrap();
    assert_eq!(parts.len(), 2);
}

#[test]
fn columns_may_come_in_any_order() {
    let text = "Width,Length,Qualifier C,Qualifier B,Qualifier A,SKU,ID\n2,3,c,b,a,S,9\n";
    let parts = aggregate_csv(text).unwrap();
    assert_eq!(parts.len(), 1);
    assert_eq!(parts[0].id, "9");
    assert_eq!(parts[0].sku, "S");
    assert_eq!(parts[0].qualifier_a, "a");
    assert_eq!(parts[0].length, Some("3".to_string()));
    assert_eq!(parts[0].width, Some("2".to_string()));
}

#[test]
fn empty_list_gives_no_requests() {
    assert_eq!(aggregate_csv(HEADER).unwrap().len(), 0);
}

#[test]
fn rows_aggregate_from_plain_values() {
    let headers: Vec<String> = HEADER.split(',').map(|s| s.to_string()).collect();
    let row = |id: &str| -> Vec<String> { vec![id, "S", "", "", "", "", ""].into_iter().map(|s| s.to_string()).collect() };
    let rows = vec![row("1"), row("2"), row("1"), row("1")];
    let parts = aggregate_rows(&headers, &rows).unwrap();
    assert_eq!(parts.len(), 2);
    assert_eq!(parts[0].id, "1");
    assert_eq!(parts[0].quantity, 3);
    assert_eq!(parts[1].id, "2");
    assert_eq!(parts[1].quantity, 1);
}

#[test]
fn parts_compare_without_quantity() {
    let a = PartRequest {
        id: "1".to_string(),
        sku: "A".to_string(),
        qualifier_a: String::new(),
        qualifier_b: String::new(),
        qualifier_c: String::new(),
        length: None,
        width: Some("2".to_string()),
        quantity: 1,
    };
    let mut b = a.clone();
    b.quantity = 4;
    assert!(a == b);
    assert!(a.same_part(&b));
    let mut c = a.clone();
    c.width = None;
    assert!(a != c);
    let merged = aggregate_parts(&vec![a.clone(), b, c, a]);
    assert_eq!(merged.len(), 2);
    assert_eq!(merged[0].quantity, 3);
    assert_eq!(merged[1].quantity, 1);
}

#[test]
fn sizes_trim_unicode_whitespace_only() {
    let text = format!("{}\n1,A,,,,\u{a0}5\u{3000},\u{1c}\n1,A,,,,\t5 ,\u{2028}\n", HEADER);
    let parts = aggregate_csv(&text).unwrap();
    assert_eq!(parts.len(), 2);
    assert!(parts.iter().all(|p| p.length == Some("5".to_string())));
    assert!(parts.iter().any(|p| p.width == Some("\u{1c}".to_string())));
    assert!(parts.iter().any(|p| p.width.is_none()));
}

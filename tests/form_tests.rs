use msrs::cookies::parse_cookie_header;
use msrs::api_client::{login_form, AddToCartParams, GetProductPriceParams, DEFAULT_STORE_ID};
use msrs::order::PartRequest;
use msrs::text::decimal_string;

fn part(quantity: usize, length: Option<&str>, width: Option<&str>) -> PartRequest {
    PartRequest {
        id: "12".to_string(),
        sku: "AL-6061".to_string(),
        qualifier_a: "1in".to_string(),
        qualifier_b: String::new(),
        qualifier_c: String::new(),
        length: length.map(|s| s.to_string()),
        width: width.map(|s| s.to_string()),
        quantity,
    }
}

#[test]
fn decimal_quantities() {
    assert_eq!(decimal_string(0), "0");
    assert_eq!(decimal_string(7), "7");
    assert_eq!(decimal_string(10), "10");
    assert_eq!(decimal_string(12345), "12345");
}

#[test]
fn cart_line_for_part() {
    let p = AddToCartParams::for_part(&part(3, None, Some("2")), DEFAULT_STORE_ID);
    assert_eq!(p.action, "put_addtocart");
    assert_eq!(p.store_id, "023001");
    assert_eq!(p.store_country, "USA");
    assert_eq!(p.pro_id, "12");
    assert_eq!(p.pro_sku, "AL-6061");
    assert_eq!(p.prowidth, Some("2".to_string()));
    assert_eq!(p.prolength, "");
    assert_eq!(p.selunits, "Inches");
    assert_eq!(p.selquantity, "3");
    assert_eq!(p.pro_price, "0.0");
}

#[test]
fn cart_form_body() {
    let p = AddToCartParams::for_part(&part(12, Some("5 1/2"), None), "023002");
    assert_eq!(
        p.to_form(),
        "action=put_addtocart&store_id=023002&store_country=USA&pro_id=12&pro_sku=AL-6061&prolength=5+1%2F2&selunits=Inches&selquantity=12&pro_price=0.0"
    );
    let w = AddToCartParams::for_part(&part(1, None, Some("4")), "1");
    assert!(w.to_form().contains("&prowidth=4&prolength=&"));
}

#[test]
fn price_form_body() {
    let p = GetProductPriceParams {
        action: "get_price".to_string(),
        store_id: "1".to_string(),
        store_country: "USA".to_string(),
        pro_id: "2".to_string(),
        pro_sku: "S".to_string(),
        prolength: "3".to_string(),
        selunits: "Inches".to_string(),
        selquantity: "4".to_string(),
    };
    assert_eq!(p.form_pairs().len(), 8);
    assert_eq!(
        p.to_form(),
        "action=get_price&store_id=1&store_country=USA&pro_id=2&pro_sku=S&prolength=3&selunits=Inches&selquantity=4"
    );
}

#[test]
fn login_body() {
    assert_eq!(
        login_form("a@b.c", "p w"),
        "msm_action=form_login&msm_redirect_to=%2Fmy-account%2Fmy-orders%2F&msm_email=a%40b.c&msm_password=p+w&defaultstorekeylogin=023001"
    );
}

#[test]
fn cookie_header_pairs() {
    let pairs = parse_cookie_header("a=1; session = x=y ;flag; b=");
    assert_eq!(
        pairs,
        vec![
            ("a".to_string(), "1".to_string()),
            ("session ".to_string(), " x=y".to_string()),
            ("b".to_string(), "".to_string()),
        ]
    );
    assert!(parse_cookie_header("").is_empty());
}

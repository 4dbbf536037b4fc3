use msrs::extract::{
    collect_links, extract_metal_links, extract_product_links, extract_product_records, extract_shape_links,
    extract_stores, record_from_inputs, store_records,
};
use msrs::html::HtmlElement;

fn input(name: &str, value: &str) -> HtmlElement {
    HtmlElement { attrs: vec![Some(name.to_string()), Some(value.to_string())], text: String::new(), first_text: None }
}

fn link(href: &str, text: &str) -> HtmlElement {
    let first_text = if text.is_empty() { None } else { Some(text.to_string()) };
    HtmlElement { attrs: vec![Some(href.to_string())], text: text.to_string(), first_text }
}

fn sorted(mut v: Vec<String>) -> Vec<String> {
    v.sort();
    v
}

#[test]
fn row_with_id_sku_and_first_size() {
    let row = vec![input("pro_id", "42"), input("pro_sku", "XYZ"), input("pro_size1", "10in")];
    let p = record_from_inputs(&row).unwrap();
    assert_eq!(p.id, "42");
    assert_eq!(p.sku, "XYZ");
    assert_eq!(p.qualifier_a, "10in");
    assert_eq!(p.qualifier_b, "");
    assert_eq!(p.qualifier_c, "");
    assert!(!p.requires_length);
    assert!(!p.requires_width);
}

#[test]
fn length_and_width_markers() {
    let row = vec![
        input("pro_id", "1"),
        input("pro_sku", "S"),
        input("pro_length", ""),
        input("pro_width", "x"),
        input("prosize2", "Round bar"),
        input("pro_size2", "b"),
        input("pro_size3", "c"),
    ];
    let p = record_from_inputs(&row).unwrap();
    assert!(p.requires_length);
    assert!(p.requires_width);
    assert_eq!(p.description, "Round bar");
    assert_eq!(p.qualifier_b, "b");
    assert_eq!(p.qualifier_c, "c");
}

#[test]
fn row_without_id_gives_no_record() {
    let row = vec![input("pro_sku", "XYZ")];
    assert!(record_from_inputs(&row).is_none());
    let row = vec![input("pro_id", "4"), input("pro_sku", "")];
    assert!(record_from_inputs(&row).is_none());
}

#[test]
fn later_input_overrides_and_nameless_inputs_are_skipped() {
    let nameless = HtmlElement { attrs: vec![None, Some("9".to_string())], text: String::new(), first_text: None };
    let row = vec![input("pro_id", "1"), input("pro_sku", "A"), nameless, input("pro_id", "2")];
    let p = record_from_inputs(&row).unwrap();
    assert_eq!(p.id, "2");
}

#[test]
fn links_are_filtered_and_deduplicated() {
    let elems = vec![
        link("/metals/steel/", "Steel"),
        link("/metals/steel/", "Steel again"),
        link("/metals/blank/", "   "),
        link("/about/", "About"),
        HtmlElement { attrs: vec![None], text: "No target".to_string(), first_text: Some("No target".to_string()) },
        link("/metals/aluminum/", "Aluminum"),
    ];
    let named = sorted(collect_links(&elems, "/metals/", true));
    assert_eq!(named, vec!["/metals/aluminum/".to_string(), "/metals/steel/".to_string()]);
    let any = sorted(collect_links(&elems, "/metals/", false));
    assert_eq!(any.len(), 3);
    assert!(collect_links(&Vec::new(), "/metals/", false).is_empty());
}

#[test]
fn metal_links_from_listing_page() {
    let html = r#"<html><body>
        <div class="products-list-container">
          <a href="/metals/steel/">Steel</a>
          <a href="/metals/steel/"> Steel </a>
          <a href="/metals/copper/">  </a>
          <a href="/contact/">Contact</a>
          <a href="/metals/brass/">Brass</a>
        </div>
        <a href="/metals/outside/">Outside</a>
        </body></html>"#;
    let links = sorted(extract_metal_links(html));
    assert_eq!(links, vec!["/metals/brass/".to_string(), "/metals/steel/".to_string()]);
}

#[test]
fn shape_links_from_metal_page() {
    let html = r#"<html><body>
        <div><a href="/metals/steel/round/">Round</a><a href="/metals/steel/flat/"></a></div>
        <div><span><a href="/metals/steel/deep/">Deep</a></span></div>
        <div><a href="/metals/steel/round/">Round</a><a href="/shop/">Shop</a></div>
        </body></html>"#;
    let links = sorted(extract_shape_links(html));
    assert_eq!(links, vec!["/metals/steel/flat/".to_string(), "/metals/steel/round/".to_string()]);
}

#[test]
fn product_links_from_first_main_only() {
    let html = r#"<html><body>
        <a href="/product/header-item/">Header</a>
        <main><a href="/product/a/">A</a><div><a href="/product/b/">B</a></div><a href="/product/a/">A</a><a href="/other/">O</a></main>
        </body></html>"#;
    let links = sorted(extract_product_links(html));
    assert_eq!(links, vec!["/product/a/".to_string(), "/product/b/".to_string()]);
    assert!(extract_product_links("<html><body><a href=\"/product/x/\">x</a></body></html>").is_empty());
}

#[test]
fn product_records_from_table() {
    let html = r#"<html><body><table>
        <tr><td><input name="pro_id" value="42"><input name="pro_sku" value="XYZ"><input name="pro_size1" value="10in"></td></tr>
        <tr><td><input name="pro_sku" value="NOID"></td></tr>
        <tr><td><input name="pro_id" value="7"><input name="pro_sku" value="Q"><input name="pro_width" value="1"></td></tr>
        </table></body></html>"#;
    let records = extract_product_records(html);
    assert_eq!(records.len(), 2);
    assert_eq!(records[0].id, "42");
    assert_eq!(records[0].sku, "XYZ");
    assert_eq!(records[0].qualifier_a, "10in");
    assert!(!records[0].requires_width);
    assert_eq!(records[1].id, "7");
    assert!(records[1].requires_width);
    assert!(extract_product_records("<p>nothing</p>").is_empty());
}

#[test]
fn stores_from_finder_page() {
    let html = r#"<html><body>
        <div class="locationlists"><h4><a href="/s/1">Downtown</a></h4><a class="mystoresetbtn" data-storeid="023001">Set</a></div>
        <div class="locationlists"><h4><a href="/s/2">No button</a></h4></div>
        <div class="locationlists"><h4><a href="/s/3">Uptown<span> East</span></a></h4><a class="mystoresetbtn" data-storeid="023002">Set</a></div>
        <div class="locationlists"><h4><a href="/s/4"></a></h4><a class="mystoresetbtn" data-storeid="023003">Set</a></div>
        <div class="locationlists"><h4><a href="/s/5">No id</a></h4><a class="mystoresetbtn">Set</a></div>
        </body></html>"#;
    let stores = extract_stores(html);
    assert_eq!(stores.len(), 2);
    assert_eq!(stores[0].id, "023001");
    assert_eq!(stores[0].name, "Downtown");
    assert_eq!(stores[1].id, "023002");
    assert_eq!(stores[1].name, "Uptown");
}

#[test]
fn stores_pair_sections_in_order() {
    let button = |id: Option<&str>| HtmlElement { attrs: vec![id.map(|s| s.to_string())], text: String::new(), first_text: None };
    let buttons = vec![vec![button(Some("1"))], vec![button(None)], vec![], vec![button(Some("4"))]];
    let names = vec![vec![link("/a", "A")], vec![link("/b", "B")], vec![link("/c", "C")], vec![link("/d", "")]];
    let stores = store_records(&buttons, &names);
    assert_eq!(stores.len(), 1);
    assert_eq!(stores[0].id, "1");
    assert_eq!(stores[0].name, "A");
    assert_eq!(stores[0].page_id, "");
}

#[test]
fn size_markers_count_without_a_value() {
    let marker = |name: &str| HtmlElement { attrs: vec![Some(name.to_string()), None], text: String::new(), first_text: None };
    let row = vec![input("pro_id", "1"), input("pro_sku", "S"), marker("pro_length")];
    let p = record_from_inputs(&row).unwrap();
    assert!(p.requires_length);
    assert!(!p.requires_width);
    let row = vec![input("pro_id", "1"), input("pro_sku", "S"), marker("pro_width"), marker("pro_id")];
    let p = record_from_inputs(&row).unwrap();
    assert!(!p.requires_length);
    assert!(p.requires_width);
    assert_eq!(p.id, "1");
    let html = r#"<table><tr><td><input name="pro_id" value="5"><input name="pro_sku" value="T"><input name="pro_length"></td></tr></table>"#;
    let records = extract_product_records(html);
    assert_eq!(records.len(), 1);
    assert!(records[0].requires_length);
    assert!(!records[0].requires_width);
}

//! What each crawl stage reads from a fetched page: the distinct links to
//! follow, the product records of a product page, the store locations.

use vstd::prelude::*;
use crate::html::{attr_of, elements_view, groups_view, html_selection, select_elements, ElementView, HtmlElement};
use crate::links::insert_unique;
use crate::models::{ProductInfo, ProductView, Store, StoreView};
use crate::text::{contains_str, has_infix, opt_view, strings_view, trim, trim_of};

verus! {

/// The target of a link element that points under `marker`, and, where
/// `named`, has visible text.
pub open spec fn qualifying_link(e: ElementView, marker: Seq<char>, named: bool) -> Option<Seq<char>> {
    match attr_of(e, 0) {
        Some(h) => if has_infix(h, marker) && (!named || trim_of(e.text).len() > 0) { Some(h) } else { None },
        None => None,
    }
}

/// The distinct targets of the qualifying links among `elems`.
pub open spec fn links_in(elems: Seq<ElementView>, marker: Seq<char>, named: bool) -> Set<Seq<char>> {
    Set::new(|h: Seq<char>| exists|i: int| 0 <= i < elems.len() && qualifying_link(elems[i], marker, named) == Some(h))
}

fn link_target(e: &HtmlElement, marker: &str, named: bool) -> (r: Option<String>)
    ensures
        opt_view(r) == qualifying_link(e@, marker@, named),
{
    if e.attrs.len() == 0 {
        return None;
    }
    match &e.attrs[0] {
        Some(h) => {
            if contains_str(h.as_str(), marker) && (!named || !trim(e.text.as_str()).as_str().is_empty()) {
                Some(h.clone())
            } else {
                None
            }
        },
        None => None,
    }
}

/// The distinct targets of the qualifying links among `elems` (their first
/// attribute is the link target), each once.
pub fn collect_links(elems: &Vec<HtmlElement>, marker: &str, named: bool) -> (r: Vec<String>)
    ensures
        strings_view(r@).no_duplicates(),
        strings_view(r@).to_set() == links_in(elements_view(elems@), marker@, named),
{
    let ghost ev = elements_view(elems@);
    let mut out: Vec<String> = Vec::new();
    let mut i: usize = 0;
    while i < elems.len()
        invariant
            i <= elems@.len(),
            ev == elements_view(elems@),
            strings_view(out@).no_duplicates(),
            strings_view(out@).to_set() == links_in(ev.take(i as int), marker@, named),
        decreases elems@.len() - i,
    {
        let t = link_target(&elems[i], marker, named);
        let ghost before = strings_view(out@).to_set();
        let ghost prev = ev.take(i as int);
        let ghost next = ev.take(i as int + 1);
        assert(next[i as int] == ev[i as int]);
        assert forall|k: int| 0 <= k < i implies next[k] == prev[k] by {}
        match t {
            Some(h) => {
                let ghost hv = h@;
                insert_unique(&mut out, h);
                assert(links_in(next, marker@, named) =~= before.insert(hv)) by {
                    assert forall|x: Seq<char>| links_in(next, marker@, named).contains(x) implies before.insert(hv).contains(x) by {
                        let k = choose|k: int| 0 <= k < next.len() && qualifying_link(next[k], marker@, named) == Some(x);
                        if k < i {
                            assert(prev[k] == next[k]);
                        }
                    }
                    assert forall|x: Seq<char>| before.insert(hv).contains(x) implies links_in(next, marker@, named).contains(x) by {
                        if x != hv {
                            let k = choose|k: int| 0 <= k < prev.len() && qualifying_link(prev[k], marker@, named) == Some(x);
                            assert(next[k] == prev[k]);
                        } else {
                            assert(qualifying_link(next[i as int], marker@, named) == Some(x));
                        }
                    }
                }
            },
            None => {
                assert(links_in(next, marker@, named) =~= before) by {
                    assert forall|x: Seq<char>| links_in(next, marker@, named).contains(x) implies before.contains(x) by {
                        let k = choose|k: int| 0 <= k < next.len() && qualifying_link(next[k], marker@, named) == Some(x);
                        if k < i {
                            assert(prev[k] == next[k]);
                        }
                    }
                    assert forall|x: Seq<char>| before.contains(x) implies links_in(next, marker@, named).contains(x) by {
                        let k = choose|k: int| 0 <= k < prev.len() && qualifying_link(prev[k], marker@, named) == Some(x);
                        assert(next[k] == prev[k]);
                    }
                }
            },
        }
        i = i + 1;
    }
    assert(ev.take(elems@.len() as int) =~= ev);
    out
}


/// The elements of the first group of a selection, if there is one.
pub open spec fn first_group(sel: Option<Seq<Seq<ElementView>>>) -> Seq<ElementView> {
    match sel {
        Some(g) => if g.len() > 0 { g[0] } else { Seq::empty() },
        None => Seq::empty(),
    }
}

/// The groups of a selection; none where it failed.
pub open spec fn all_groups(sel: Option<Seq<Seq<ElementView>>>) -> Seq<Seq<ElementView>> {
    match sel {
        Some(g) => g,
        None => Seq::empty(),
    }
}

fn attr_names1(a: &str) -> (r: Vec<String>)
    ensures
        strings_view(r@) == seq![a@],
{
    let r = vec![String::from_str(a)];
    assert(strings_view(r@) =~= seq![a@]);
    r
}

fn first_group_of(sel: Option<Vec<Vec<HtmlElement>>>) -> (r: Vec<HtmlElement>)
    ensures
        elements_view(r@) == first_group(crate::html::selection_view(sel)),
{
    match sel {
        Some(mut g) => {
            if g.len() > 0 {
                let ghost gv = groups_view(g@);
                let first = g.swap_remove(0);
                assert(elements_view(first@) == gv[0]);
                first
            } else {
                let r: Vec<HtmlElement> = Vec::new();
                assert(elements_view(r@) =~= Seq::<ElementView>::empty());
                r
            }
        },
        None => {
            let r: Vec<HtmlElement> = Vec::new();
            assert(elements_view(r@) =~= Seq::<ElementView>::empty());
            r
        },
    }
}

/// The metal pages linked from the category listing `html`: targets under
/// `/metals/` of links with visible text inside the listing container.
pub fn extract_metal_links(html: &str) -> (r: Vec<String>)
    ensures
        strings_view(r@).no_duplicates(),
        strings_view(r@).to_set() == links_in(
            first_group(html_selection(html@, "html"@, "div.products-list-container a"@, seq!["href"@])),
            "/metals/"@,
            true,
        ),
{
    let sel = select_elements(html, "html", "div.products-list-container a", &attr_names1("href"));
    collect_links(&first_group_of(sel), "/metals/", true)
}

/// The shape pages linked from the metal page `html`: targets under
/// `/metals/` of links that are direct children of a `div`.
pub fn extract_shape_links(html: &str) -> (r: Vec<String>)
    ensures
        strings_view(r@).no_duplicates(),
        strings_view(r@).to_set() == links_in(
            first_group(html_selection(html@, "html"@, "div > a"@, seq!["href"@])),
            "/metals/"@,
            false,
        ),
{
    let sel = select_elements(html, "html", "div > a", &attr_names1("href"));
    collect_links(&first_group_of(sel), "/metals/", false)
}

/// The product pages linked from the shape page `html`: targets under
/// `/product/` of links inside the first `main` element.
pub fn extract_product_links(html: &str) -> (r: Vec<String>)
    ensures
        strings_view(r@).no_duplicates(),
        strings_view(r@).to_set() == links_in(
            first_group(html_selection(html@, "main"@, "a"@, seq!["href"@])),
            "/product/"@,
            false,
        ),
{
    let sel = select_elements(html, "main", "a", &attr_names1("href"));
    collect_links(&first_group_of(sel), "/product/", false)
}

/// The fields of a product row gathered so far.
pub struct RowFields {
    pub id: Seq<char>,
    pub sku: Seq<char>,
    pub qualifier_a: Seq<char>,
    pub qualifier_b: Seq<char>,
    pub qualifier_c: Seq<char>,
    pub description: Seq<char>,
    pub requires_length: bool,
    pub requires_width: bool,
}

pub open spec fn no_fields() -> RowFields {
    RowFields {
        id: Seq::empty(),
        sku: Seq::empty(),
        qualifier_a: Seq::empty(),
        qualifier_b: Seq::empty(),
        qualifier_c: Seq::empty(),
        description: Seq::empty(),
        requires_length: false,
        requires_width: false,
    }
}

/// The effect of one input named `name` with value `value`; a later input
/// of the same name overrides an earlier one.
pub open spec fn apply_input(f: RowFields, name: Seq<char>, value: Seq<char>) -> RowFields {
    RowFields {
        id: if name == "pro_id"@ { value } else { f.id },
        sku: if name == "pro_sku"@ { value } else { f.sku },
        qualifier_a: if name == "pro_size1"@ { value } else { f.qualifier_a },
        qualifier_b: if name == "pro_size2"@ { value } else { f.qualifier_b },
        qualifier_c: if name == "pro_size3"@ { value } else { f.qualifier_c },
        description: if name == "prosize2"@ { value } else { f.description },
        requires_length: f.requires_length || name == "pro_length"@,
        requires_width: f.requires_width || name == "pro_width"@,
    }
}

/// The effect of an input named `name` that has no value: it can only mark
/// that the part needs a length or a width.
pub open spec fn apply_marker(f: RowFields, name: Seq<char>) -> RowFields {
    RowFields {
        requires_length: f.requires_length || name == "pro_length"@,
        requires_width: f.requires_width || name == "pro_width"@,
        ..f
    }
}

/// The fields that the inputs of a row give, in order. Each input carries
/// `name` then `value`. An input without a name is skipped; `pro_length`
/// and `pro_width` count by their presence alone; the other fields need a
/// value.
pub open spec fn row_fields(inputs: Seq<ElementView>) -> RowFields
    decreases inputs.len(),
{
    if inputs.len() == 0 {
        no_fields()
    } else {
        let f = row_fields(inputs.drop_last());
        let e = inputs.last();
        match (attr_of(e, 0), attr_of(e, 1)) {
            (Some(n), Some(v)) => apply_input(f, n, v),
            (Some(n), None) => apply_marker(f, n),
            _ => f,
        }
    }
}

/// The product record of a row: present when the row has both a non-empty
/// id and a non-empty SKU.
pub open spec fn record_of(inputs: Seq<ElementView>) -> Option<ProductView> {
    let f = row_fields(inputs);
    if f.id.len() > 0 && f.sku.len() > 0 {
        Some(ProductView {
            sku: f.sku,
            id: f.id,
            qualifier_a: f.qualifier_a,
            qualifier_b: f.qualifier_b,
            qualifier_c: f.qualifier_c,
            description: f.description,
            requires_length: f.requires_length,
            requires_width: f.requires_width,
        })
    } else {
        None
    }
}

/// The records of the rows that have one, in row order.
pub open spec fn records_of(rows: Seq<Seq<ElementView>>) -> Seq<ProductView>
    decreases rows.len(),
{
    if rows.len() == 0 {
        Seq::empty()
    } else {
        match record_of(rows.last()) {
            Some(p) => records_of(rows.drop_last()).push(p),
            None => records_of(rows.drop_last()),
        }
    }
}

fn is_named(name: &String, lit: &str) -> (r: bool)
    ensures
        r == (name@ == lit@),
{
    *name == String::from_str(lit)
}

/// Reads one product row from its inputs (each with the attributes `name`
/// and `value`, in that order).
pub fn record_from_inputs(inputs: &Vec<HtmlElement>) -> (r: Option<ProductInfo>)
    ensures
        match r {
            Some(p) => record_of(elements_view(inputs@)) == Some(p@),
            None => record_of(elements_view(inputs@)).is_none(),
        },
{
    let ghost ev = elements_view(inputs@);
    let mut id = String::new();
    let mut sku = String::new();
    let mut qualifier_a = String::new();
    let mut qualifier_b = String::new();
    let mut qualifier_c = String::new();
    let mut description = String::new();
    let mut requires_length = false;
    let mut requires_width = false;
    let mut i: usize = 0;
    while i < inputs.len()
        invariant
            i <= inputs@.len(),
            ev == elements_view(inputs@),
            row_fields(ev.take(i as int)) == (RowFields {
                id: id@,
                sku: sku@,
                qualifier_a: qualifier_a@,
                qualifier_b: qualifier_b@,
                qualifier_c: qualifier_c@,
                description: description@,
                requires_length,
                requires_width,
            }),
        decreases inputs@.len() - i,
    {
        let e = &inputs[i];
        assert(ev.take(i as int + 1).drop_last() =~= ev.take(i as int));
        assert(ev.take(i as int + 1).last() == e@);
        if e.attrs.len() >= 1 {
            match &e.attrs[0] {
                Some(name) => {
                    if is_named(name, "pro_length") {
                        requires_length = true;
                    }
                    if is_named(name, "pro_width") {
                        requires_width = true;
                    }
                    if e.attrs.len() >= 2 {
                        match &e.attrs[1] {
                            Some(value) => {
                                if is_named(name, "pro_id") {
                                    id = value.clone();
                                }
                                if is_named(name, "pro_sku") {
                                    sku = value.clone();
                                }
                                if is_named(name, "pro_size1") {
                                    qualifier_a = value.clone();
                                }
                                if is_named(name, "pro_size2") {
                                    qualifier_b = value.clone();
                                }
                                if is_named(name, "pro_size3") {
                                    qualifier_c = value.clone();
                                }
                                if is_named(name, "prosize2") {
                                    description = value.clone();
                                }
                            },
                            None => {},
                        }
                    }
                },
                None => {},
            }
        }
        i = i + 1;
    }
    assert(ev.take(inputs@.len() as int) =~= ev);
    if id.as_str().is_empty() || sku.as_str().is_empty() {
        None
    } else {
        Some(ProductInfo {
            sku,
            id,
            qualifier_a,
            qualifier_b,
            qualifier_c,
            description,
            requires_length,
            requires_width,
        })
    }
}

pub open spec fn products_view(v: Seq<ProductInfo>) -> Seq<ProductView> {
    v.map_values(|p: ProductInfo| p@)
}

/// One record per row that has both an id and a SKU, in row order.
pub fn product_records(rows: &Vec<Vec<HtmlElement>>) -> (r: Vec<ProductInfo>)
    ensures
        products_view(r@) == records_of(groups_view(rows@)),
{
    let ghost gv = groups_view(rows@);
    let mut out: Vec<ProductInfo> = Vec::new();
    let mut i: usize = 0;
    while i < rows.len()
        invariant
            i <= rows@.len(),
            gv == groups_view(rows@),
            products_view(out@) == records_of(gv.take(i as int)),
        decreases rows@.len() - i,
    {
        assert(gv.take(i as int + 1).drop_last() =~= gv.take(i as int));
        assert(gv.take(i as int + 1).last() == elements_view(rows@[i as int]@));
        match record_from_inputs(&rows[i]) {
            Some(p) => {
                out.push(p);
                assert(products_view(out@) =~= records_of(gv.take(i as int + 1)));
            },
            None => {},
        }
        i = i + 1;
    }
    assert(gv.take(rows@.len() as int) =~= gv);
    out
}

fn attr_names2(a: &str, b: &str) -> (r: Vec<String>)
    ensures
        strings_view(r@) == seq![a@, b@],
{
    let r = vec![String::from_str(a), String::from_str(b)];
    assert(strings_view(r@) =~= seq![a@, b@]);
    r
}

fn all_groups_of(sel: Option<Vec<Vec<HtmlElement>>>) -> (r: Vec<Vec<HtmlElement>>)
    ensures
        groups_view(r@) == all_groups(crate::html::selection_view(sel)),
{
    match sel {
        Some(g) => g,
        None => {
            let r: Vec<Vec<HtmlElement>> = Vec::new();
            assert(groups_view(r@) =~= Seq::<Seq<ElementView>>::empty());
            r
        },
    }
}

/// The product records of the product page `html`: one per table row whose
/// inputs give both an id and a SKU.
pub fn extract_product_records(html: &str) -> (r: Vec<ProductInfo>)
    ensures
        products_view(r@) == records_of(all_groups(html_selection(html@, "tr"@, "input"@, seq!["name"@, "value"@]))),
{
    let sel = select_elements(html, "tr", "input", &attr_names2("name", "value"));
    product_records(&all_groups_of(sel))
}


/// The store of one location section: the store id from its first store
/// button, and the first text node of its first heading link as its name.
/// A section that lacks either, whose button has no store id, or whose
/// heading link has no text, is malformed and gives no store. The finder
/// page carries no page id, so that field is left empty.
pub open spec fn store_of(buttons: Seq<ElementView>, names: Seq<ElementView>) -> Option<StoreView> {
    if buttons.len() > 0 && names.len() > 0 {
        match (attr_of(buttons[0], 0), names[0].first_text) {
            (Some(id), Some(name)) => if name.len() > 0 {
                Some(StoreView { id: id, page_id: Seq::empty(), name: name })
            } else {
                None
            },
            _ => None,
        }
    } else {
        None
    }
}

/// The stores of the first `k` location sections, in order, skipping
/// sections that lack a button with a store id or a heading link.
pub open spec fn stores_of(buttons: Seq<Seq<ElementView>>, names: Seq<Seq<ElementView>>, k: nat) -> Seq<StoreView>
    decreases k,
{
    if k == 0 {
        Seq::empty()
    } else {
        let prev = stores_of(buttons, names, (k - 1) as nat);
        match store_of(buttons[k - 1], names[k - 1]) {
            Some(st) => prev.push(st),
            None => prev,
        }
    }
}

pub open spec fn stores_view(v: Seq<Store>) -> Seq<StoreView> {
    v.map_values(|st: Store| st@)
}

/// Reads one location section.
pub fn store_from_section(buttons: &Vec<HtmlElement>, names: &Vec<HtmlElement>) -> (r: Option<Store>)
    ensures
        match r {
            Some(st) => store_of(elements_view(buttons@), elements_view(names@)) == Some(st@),
            None => store_of(elements_view(buttons@), elements_view(names@)).is_none(),
        },
{
    if buttons.len() == 0 || names.len() == 0 || buttons[0].attrs.len() == 0 {
        return None;
    }
    match (&buttons[0].attrs[0], &names[0].first_text) {
        (Some(id), Some(name)) => {
            if name.as_str().is_empty() {
                return None;
            }
            let st = Store { id: id.clone(), page_id: String::new(), name: name.clone() };
            assert(st@.page_id =~= Seq::<char>::empty());
            Some(st)
        },
        _ => None,
    }
}

/// The stores of the location sections, pairing the button selection and
/// the heading selection section by section.
pub fn store_records(buttons: &Vec<Vec<HtmlElement>>, names: &Vec<Vec<HtmlElement>>) -> (r: Vec<Store>)
    ensures
        stores_view(r@) == stores_of(
            groups_view(buttons@),
            groups_view(names@),
            if buttons@.len() <= names@.len() { buttons@.len() } else { names@.len() },
        ),
{
    let n = if buttons.len() <= names.len() { buttons.len() } else { names.len() };
    let mut out: Vec<Store> = Vec::new();
    let mut i: usize = 0;
    while i < n
        invariant
            i <= n,
            n <= buttons@.len(),
            n <= names@.len(),
            stores_view(out@) == stores_of(groups_view(buttons@), groups_view(names@), i as nat),
        decreases n - i,
    {
        assert(groups_view(buttons@)[i as int] == elements_view(buttons@[i as int]@));
        assert(groups_view(names@)[i as int] == elements_view(names@[i as int]@));
        match store_from_section(&buttons[i], &names[i]) {
            Some(st) => {
                out.push(st);
                assert(stores_view(out@) =~= stores_of(groups_view(buttons@), groups_view(names@), (i + 1) as nat));
            },
            None => {},
        }
        i = i + 1;
    }
    out
}

/// The stores listed on the store finder page `html`.
pub fn extract_stores(html: &str) -> (r: Vec<Store>)
    ensures
        ({
            let b = all_groups(html_selection(html@, "div.locationlists"@, "a.mystoresetbtn"@, seq!["data-storeid"@]));
            let n = all_groups(html_selection(html@, "div.locationlists"@, "h4 > a"@, seq!["href"@]));
            stores_view(r@) == stores_of(b, n, if b.len() <= n.len() { b.len() } else { n.len() })
        }),
{
    let buttons = all_groups_of(select_elements(html, "div.locationlists", "a.mystoresetbtn", &attr_names1("data-storeid")));
    let names = all_groups_of(select_elements(html, "div.locationlists", "h4 > a", &attr_names1("href")));
    store_records(&buttons, &names)
}

} // verus!

//! Records produced by a crawl.

use vstd::prelude::*;

verus! {

/// One orderable size of a product, read from a row of its product page.
#[derive(Debug, Clone, PartialEq, Eq)]
pub struct ProductInfo {
    pub sku: String,
    pub id: String,
    pub qualifier_a: String,
    pub qualifier_b: String,
    pub qualifier_c: String,
    pub description: String,
    pub requires_length: bool,
    pub requires_width: bool,
}

/// A product record as plain values.
pub struct ProductView {
    pub sku: Seq<char>,
    pub id: Seq<char>,
    pub qualifier_a: Seq<char>,
    pub qualifier_b: Seq<char>,
    pub qualifier_c: Seq<char>,
    pub description: Seq<char>,
    pub requires_length: bool,
    pub requires_width: bool,
}

impl View for ProductInfo {
    type V = ProductView;

    open spec fn view(&self) -> ProductView {
        ProductView {
            sku: self.sku@,
            id: self.id@,
            qualifier_a: self.qualifier_a@,
            qualifier_b: self.qualifier_b@,
            qualifier_c: self.qualifier_c@,
            description: self.description@,
            requires_length: self.requires_length,
            requires_width: self.requires_width,
        }
    }
}

/// A store location.
#[derive(Debug, Clone, PartialEq, Eq)]
pub struct Store {
    pub id: String,
    pub page_id: String,
    pub name: String,
}

/// A store record as plain values.
pub struct StoreView {
    pub id: Seq<char>,
    pub page_id: Seq<char>,
    pub name: Seq<char>,
}

impl View for Store {
    type V = StoreView;

    open spec fn view(&self) -> StoreView {
        StoreView { id: self.id@, page_id: self.page_id@, name: self.name@ }
    }
}

} // verus!

//! The form bodies of the shop's login and cart requests.

use vstd::prelude::*;
use crate::order::PartRequest;
use crate::text::{decimal_of, decimal_string, digit_char, opt_view};
use vstd::utf8::encode_utf8;

verus! {

/// The store that orders go to unless another is named.
pub const DEFAULT_STORE_ID: &'static str = "023001";

/// The shop's action name for adding a line to the cart.
pub const ADD_TO_CART_ACTION: &'static str = "put_addtocart";

/// The country of every store that orders go to.
pub const STORE_COUNTRY: &'static str = "USA";

/// The unit in which lengths and widths are given.
pub const UNITS: &'static str = "Inches";

/// The price sent with a cart line; the shop computes the real one.
pub const PLACEHOLDER_PRICE: &'static str = "0.0";

/// The fields of an add-to-cart request.
#[derive(Debug, Clone, PartialEq, Eq)]
pub struct AddToCartParams {
    pub action: String,
    pub store_id: String,
    pub store_country: String,
    pub pro_id: String,
    pub pro_sku: String,
    pub prowidth: Option<String>,
    pub prolength: String,
    pub selunits: String,
    pub selquantity: String,
    pub pro_price: String,
}

/// The fields of a price request.
#[derive(Debug, Clone, PartialEq, Eq)]
pub struct GetProductPriceParams {
    pub action: String,
    pub store_id: String,
    pub store_country: String,
    pub pro_id: String,
    pub pro_sku: String,
    pub prolength: String,
    pub selunits: String,
    pub selquantity: String,
}

pub open spec fn pairs_view(v: Seq<(String, String)>) -> Seq<(Seq<char>, Seq<char>)> {
    v.map_values(|p: (String, String)| (p.0@, p.1@))
}

/// A byte that form encoding writes as itself.
pub open spec fn byte_unchanged(b: u8) -> bool {
    b == 0x2a || b == 0x2d || b == 0x2e || (0x30 <= b && b <= 0x39) || (0x41 <= b && b <= 0x5a)
        || b == 0x5f || (0x61 <= b && b <= 0x7a)
}

/// An upper-case hexadecimal digit.
pub open spec fn hex_upper(d: u8) -> char {
    if d < 10 {
        digit_char(d as nat)
    } else if d == 10 {
        'A'
    } else if d == 11 {
        'B'
    } else if d == 12 {
        'C'
    } else if d == 13 {
        'D'
    } else if d == 14 {
        'E'
    } else {
        'F'
    }
}

/// One byte, form encoded: kept, a space as `+`, else `%` and two hex digits.
pub open spec fn encode_byte(b: u8) -> Seq<char> {
    if byte_unchanged(b) {
        seq![b as char]
    } else if b == 0x20 {
        seq!['+']
    } else {
        seq!['%', hex_upper(b / 16), hex_upper(b % 16)]
    }
}

pub open spec fn encode_bytes(bs: Seq<u8>) -> Seq<char>
    decreases bs.len(),
{
    if bs.len() == 0 {
        Seq::empty()
    } else {
        encode_bytes(bs.drop_last()) + encode_byte(bs.last())
    }
}

/// A key or value, form encoded byte by byte over its UTF-8 encoding.
pub open spec fn form_field(s: Seq<char>) -> Seq<char> {
    encode_bytes(encode_utf8(s))
}

/// The `application/x-www-form-urlencoded` text of a list of pairs:
/// `key=value` for each, joined by `&`.
pub open spec fn urlencoded(pairs: Seq<(Seq<char>, Seq<char>)>) -> Seq<char>
    decreases pairs.len(),
{
    if pairs.len() == 0 {
        Seq::empty()
    } else {
        let prev = urlencoded(pairs.drop_last());
        let item = form_field(pairs.last().0) + seq!['='] + form_field(pairs.last().1);
        if prev.len() == 0 { item } else { prev + seq!['&'] + item }
    }
}

/// Relies on `serde_urlencoded::to_string` on a sequence of string pairs,
/// which appends each through `form_urlencoded::Serializer::append_pair`
/// (`&` between pairs, `key=value`, bytes kept, `+` or `%XX` as
/// `byte_serialize` writes them). String keys and values are always
/// accepted, so it never fails.
#[verifier::external_body]
fn encode_form(pairs: &Vec<(String, String)>) -> (r: Option<String>)
    ensures
        r.is_some(),
        opt_view(r) == Some(urlencoded(pairs_view(pairs@))),
{
    serde_urlencoded::to_string(pairs).ok()
}

fn form_body(pairs: &Vec<(String, String)>) -> (r: String)
    ensures
        r@ == urlencoded(pairs_view(pairs@)),
{
    match encode_form(pairs) {
        Some(body) => body,
        None => String::new(),
    }
}

fn pair(key: &str, value: &String) -> (r: (String, String))
    ensures
        r.0@ == key@,
        r.1@ == value@,
{
    (String::from_str(key), value.clone())
}

fn literal(s: &str) -> (r: String)
    ensures
        r@ == s@,
{
    String::from_str(s)
}

impl AddToCartParams {
    /// The cart line for one aggregated part at store `store_id`: an absent
    /// length is sent empty, an absent width is left out, and the quantity
    /// is written in decimal.
    pub fn for_part(part: &PartRequest, store_id: &str) -> (r: AddToCartParams)
        ensures
            r.action@ == ADD_TO_CART_ACTION@,
            r.store_id@ == store_id@,
            r.store_country@ == STORE_COUNTRY@,
            r.pro_id@ == part.id@,
            r.pro_sku@ == part.sku@,
            opt_view(r.prowidth) == opt_view(part.width),
            r.prolength@ == match part.length {
                Some(l) => l@,
                None => Seq::empty(),
            },
            r.selunits@ == UNITS@,
            r.selquantity@ == decimal_of(part.quantity as nat),
            r.pro_price@ == PLACEHOLDER_PRICE@,
    {
        AddToCartParams {
            action: literal(ADD_TO_CART_ACTION),
            store_id: literal(store_id),
            store_country: literal(STORE_COUNTRY),
            pro_id: part.id.clone(),
            pro_sku: part.sku.clone(),
            prowidth: match &part.width {
                Some(w) => Some(w.clone()),
                None => None,
            },
            prolength: match &part.length {
                Some(l) => l.clone(),
                None => String::new(),
            },
            selunits: literal(UNITS),
            selquantity: decimal_string(part.quantity),
            pro_price: literal(PLACEHOLDER_PRICE),
        }
    }

    /// The form fields in order; the width is left out where absent.
    pub open spec fn form_spec(&self) -> Seq<(Seq<char>, Seq<char>)> {
        let head = seq![
            ("action"@, self.action@),
            ("store_id"@, self.store_id@),
            ("store_country"@, self.store_country@),
            ("pro_id"@, self.pro_id@),
            ("pro_sku"@, self.pro_sku@),
        ];
        let width = match self.prowidth {
            Some(w) => seq![("prowidth"@, w@)],
            None => Seq::empty(),
        };
        head + width + seq![
            ("prolength"@, self.prolength@),
            ("selunits"@, self.selunits@),
            ("selquantity"@, self.selquantity@),
            ("pro_price"@, self.pro_price@),
        ]
    }

    pub fn form_pairs(&self) -> (r: Vec<(String, String)>)
        ensures
            pairs_view(r@) == self.form_spec(),
    {
        let mut r: Vec<(String, String)> = Vec::new();
        r.push(pair("action", &self.action));
        r.push(pair("store_id", &self.store_id));
        r.push(pair("store_country", &self.store_country));
        r.push(pair("pro_id", &self.pro_id));
        r.push(pair("pro_sku", &self.pro_sku));
        match &self.prowidth {
            Some(w) => r.push(pair("prowidth", w)),
            None => {},
        }
        r.push(pair("prolength", &self.prolength));
        r.push(pair("selunits", &self.selunits));
        r.push(pair("selquantity", &self.selquantity));
        r.push(pair("pro_price", &self.pro_price));
        assert(pairs_view(r@) =~= self.form_spec());
        r
    }

    /// The request body.
    pub fn to_form(&self) -> (r: String)
        ensures
            r@ == urlencoded(self.form_spec()),
    {
        form_body(&self.form_pairs())
    }
}

impl GetProductPriceParams {
    /// The form fields in order.
    pub open spec fn form_spec(&self) -> Seq<(Seq<char>, Seq<char>)> {
        seq![
            ("action"@, self.action@),
            ("store_id"@, self.store_id@),
            ("store_country"@, self.store_country@),
            ("pro_id"@, self.pro_id@),
            ("pro_sku"@, self.pro_sku@),
            ("prolength"@, self.prolength@),
            ("selunits"@, self.selunits@),
            ("selquantity"@, self.selquantity@),
        ]
    }

    pub fn form_pairs(&self) -> (r: Vec<(String, String)>)
        ensures
            pairs_view(r@) == self.form_spec(),
    {
        let mut r: Vec<(String, String)> = Vec::new();
        r.push(pair("action", &self.action));
        r.push(pair("store_id", &self.store_id));
        r.push(pair("store_country", &self.store_country));
        r.push(pair("pro_id", &self.pro_id));
        r.push(pair("pro_sku", &self.pro_sku));
        r.push(pair("prolength", &self.prolength));
        r.push(pair("selunits", &self.selunits));
        r.push(pair("selquantity", &self.selquantity));
        assert(pairs_view(r@) =~= self.form_spec());
        r
    }

    /// The request body.
    pub fn to_form(&self) -> (r: String)
        ensures
            r@ == urlencoded(self.form_spec()),
    {
        form_body(&self.form_pairs())
    }
}

/// The fields of the login form for `email` and `password`.
pub open spec fn login_spec(email: Seq<char>, password: Seq<char>) -> Seq<(Seq<char>, Seq<char>)> {
    seq![
        ("msm_action"@, "form_login"@),
        ("msm_redirect_to"@, "/my-account/my-orders/"@),
        ("msm_email"@, email),
        ("msm_password"@, password),
        ("defaultstorekeylogin"@, DEFAULT_STORE_ID@),
    ]
}

/// The login request body.
pub fn login_form(email: &str, password: &str) -> (r: String)
    ensures
        r@ == urlencoded(login_spec(email@, password@)),
{
    let mut pairs: Vec<(String, String)> = Vec::new();
    pairs.push((literal("msm_action"), literal("form_login")));
    pairs.push((literal("msm_redirect_to"), literal("/my-account/my-orders/")));
    pairs.push((literal("msm_email"), literal(email)));
    pairs.push((literal("msm_password"), literal(password)));
    pairs.push((literal("defaultstorekeylogin"), literal(DEFAULT_STORE_ID)));
    assert(pairs_view(pairs@) =~= login_spec(email@, password@));
    form_body(&pairs)
}

} // verus!

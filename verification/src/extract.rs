//! SAML extraction: locating the single base64 hidden-input value in the
//! login response, decoding it, and parsing the decoded XML into the
//! assertion's attribute list.

use vstd::prelude::*;
use crate::scan::{
    copy_range, find_in, first_match_in, is_match_at, lemma_first_match_in_first,
    lemma_first_match_in_is, lemma_first_match_in_none, lemma_single_byte_match,
};

verus! {

/// Stage-labelled failure of the extractor.
#[derive(Clone, Copy, Debug, PartialEq, Eq, Structural)]
pub enum ParseError {
    /// The login response holds no single hidden-input value.
    MissingToken,
    /// The hidden-input value is not canonical base64, or decodes to
    /// invalid UTF-8.
    InvalidEncoding,
    /// The decoded payload does not have the expected assertion structure.
    InvalidAssertion,
}

/// The attribute opener of the hidden input that carries the SAML payload.
pub open spec fn value_marker() -> Seq<u8> {
    seq![118u8, 97u8, 108u8, 117u8, 101u8, 61u8, 34u8]
}

/// A double quote, closing an attribute value.
pub open spec fn quote_marker() -> Seq<u8> {
    seq![34u8]
}

fn value_marker_bytes() -> (r: Vec<u8>)
    ensures
        r@ == value_marker(),
{
    let r: Vec<u8> = vec![118u8, 97u8, 108u8, 117u8, 101u8, 61u8, 34u8];
    proof {
        assert(r@ =~= value_marker());
    }
    r
}

fn quote_marker_bytes() -> (r: Vec<u8>)
    ensures
        r@ == quote_marker(),
{
    let r: Vec<u8> = vec![34u8];
    proof {
        assert(r@ =~= quote_marker());
    }
    r
}

/// The hidden-input value of a login response: the bytes between the first
/// `value="` marker and the next quote, provided that marker occurs exactly
/// once in the document.
pub open spec fn spec_hidden_value(body: Seq<u8>) -> Option<Seq<u8>> {
    let end = body.len() as int;
    match first_match_in(body, value_marker(), 0, end) {
        None => None,
        Some(i) => {
            let start = i + value_marker().len();
            match first_match_in(body, quote_marker(), start, end) {
                None => None,
                Some(j) => {
                    if first_match_in(body, value_marker(), i + 1, end) is Some {
                        None
                    } else {
                        Some(body.subrange(start, j))
                    }
                },
            }
        },
    }
}

/// A well-formed login response — a body holding exactly one `value="`
/// marker, whose value runs quote-free to the next quote — yields through
/// extraction exactly the embedded value, unchanged.
pub proof fn lemma_extraction_exact(pre: Seq<u8>, token: Seq<u8>, post: Seq<u8>)
    requires
        forall|j: int| 0 <= j < token.len() ==> token[j] != 34u8,
        forall|j: int|
            is_match_at(
                pre + value_marker() + token + quote_marker() + post,
                value_marker(),
                j,
                (pre + value_marker() + token + quote_marker() + post).len() as int,
            ) ==> j == pre.len(),
    ensures
        spec_hidden_value(pre + value_marker() + token + quote_marker() + post) == Some(token),
{
    let body = pre + value_marker() + token + quote_marker() + post;
    let end = body.len() as int;
    let m = pre.len() as int;
    let start = m + value_marker().len() as int;
    let q = start + token.len() as int;
    assert forall|i: int| 0 <= i < value_marker().len() implies body[m + i] == value_marker()[i] by {
        assert((pre + value_marker())[m + i] == value_marker()[i]);
    }
    assert(body.subrange(m, m + value_marker().len() as int) =~= value_marker());
    assert(is_match_at(body, value_marker(), m, end));
    assert forall|j: int| 0 <= j < m implies !is_match_at(body, value_marker(), j, end) by {
        if is_match_at(body, value_marker(), j, end) {
            assert(j == m);
        }
    }
    lemma_first_match_in_is(body, value_marker(), 0, end, m);
    assert forall|j: int| start <= j < q implies body[j] != 34u8 by {
        assert((pre + value_marker() + token)[j] == token[j - start]);
    }
    assert(body[q] == 34u8) by {
        assert((pre + value_marker() + token + quote_marker())[q] == quote_marker()[0]);
    }
    assert forall|j: int| start <= j < q implies !is_match_at(body, quote_marker(), j, end) by {
        lemma_single_byte_match(body, 34u8, j, end);
        assert(quote_marker() =~= seq![34u8]);
    }
    assert(is_match_at(body, quote_marker(), q, end)) by {
        lemma_single_byte_match(body, 34u8, q, end);
        assert(quote_marker() =~= seq![34u8]);
    }
    lemma_first_match_in_is(body, quote_marker(), start, end, q);
    assert forall|j: int| m + 1 <= j implies !is_match_at(body, value_marker(), j, end) by {
        if is_match_at(body, value_marker(), j, end) {
            assert(j == m);
        }
    }
    lemma_first_match_in_none(body, value_marker(), m + 1, end);
    assert(body.subrange(start, q) =~= token);
}

/// Finds the single base64 hidden-input value of the login response, exactly
/// as `spec_hidden_value` describes it; absence or multiplicity of the
/// hidden field is a `MissingToken` failure.
pub fn extract_hidden_value(body: &[u8]) -> (r: Result<Vec<u8>, ParseError>)
    ensures
        match r {
            Ok(v) => spec_hidden_value(body@) == Some(v@),
            Err(e) => spec_hidden_value(body@) is None && e == ParseError::MissingToken,
        },
{
    let end = body.len();
    let marker = value_marker_bytes();
    let quote = quote_marker_bytes();
    match find_in(body, marker.as_slice(), 0, end) {
        None => Err(ParseError::MissingToken),
        Some(i) => {
            proof {
                lemma_first_match_in_first(body@, value_marker(), 0, end as int);
            }
            let start = i + marker.len();
            match find_in(body, quote.as_slice(), start, end) {
                None => Err(ParseError::MissingToken),
                Some(j) => {
                    proof {
                        lemma_first_match_in_first(body@, quote_marker(), start as int, end as int);
                    }
                    match find_in(body, marker.as_slice(), i + 1, end) {
                        Some(_) => Err(ParseError::MissingToken),
                        None => Ok(copy_range(body, start, j)),
                    }
                },
            }
        },
    }
}

/// The opening of an attribute element up to its name: `<Attribute Name="`.
pub open spec fn attr_open() -> Seq<u8> {
    seq![
        60u8,
        65u8,
        116u8,
        116u8,
        114u8,
        105u8,
        98u8,
        117u8,
        116u8,
        101u8,
        32u8,
        78u8,
        97u8,
        109u8,
        101u8,
        61u8,
        34u8,
    ]
}

/// The closing tag of an attribute element: `</Attribute>`.
pub open spec fn attr_close() -> Seq<u8> {
    seq![60u8, 47u8, 65u8, 116u8, 116u8, 114u8, 105u8, 98u8, 117u8, 116u8, 101u8, 62u8]
}

/// The opening tag of one attribute value: `<AttributeValue>`.
pub open spec fn val_open() -> Seq<u8> {
    seq![
        60u8,
        65u8,
        116u8,
        116u8,
        114u8,
        105u8,
        98u8,
        117u8,
        116u8,
        101u8,
        86u8,
        97u8,
        108u8,
        117u8,
        101u8,
        62u8,
    ]
}

/// The closing tag of one attribute value: `</AttributeValue>`.
pub open spec fn val_close() -> Seq<u8> {
    seq![
        60u8,
        47u8,
        65u8,
        116u8,
        116u8,
        114u8,
        105u8,
        98u8,
        117u8,
        116u8,
        101u8,
        86u8,
        97u8,
        108u8,
        117u8,
        101u8,
        62u8,
    ]
}

/// The opening of the attribute statement element: `<AttributeStatement`.
pub open spec fn stmt_marker() -> Seq<u8> {
    seq![
        60u8,
        65u8,
        116u8,
        116u8,
        114u8,
        105u8,
        98u8,
        117u8,
        116u8,
        101u8,
        83u8,
        116u8,
        97u8,
        116u8,
        101u8,
        109u8,
        101u8,
        110u8,
        116u8,
    ]
}

fn attr_open_bytes() -> (r: Vec<u8>)
    ensures
        r@ == attr_open(),
{
    let r: Vec<u8> = vec![
        60u8, 65u8, 116u8, 116u8, 114u8, 105u8, 98u8, 117u8, 116u8, 101u8, 32u8, 78u8, 97u8,
        109u8, 101u8, 61u8, 34u8,
    ];
    proof {
        assert(r@ =~= attr_open());
    }
    r
}

fn attr_close_bytes() -> (r: Vec<u8>)
    ensures
        r@ == attr_close(),
{
    let r: Vec<u8> = vec![60u8, 47u8, 65u8, 116u8, 116u8, 114u8, 105u8, 98u8, 117u8, 116u8, 101u8, 62u8];
    proof {
        assert(r@ =~= attr_close());
    }
    r
}

fn val_open_bytes() -> (r: Vec<u8>)
    ensures
        r@ == val_open(),
{
    let r: Vec<u8> = vec![
        60u8, 65u8, 116u8, 116u8, 114u8, 105u8, 98u8, 117u8, 116u8, 101u8, 86u8, 97u8, 108u8,
        117u8, 101u8, 62u8,
    ];
    proof {
        assert(r@ =~= val_open());
    }
    r
}

fn val_close_bytes() -> (r: Vec<u8>)
    ensures
        r@ == val_close(),
{
    let r: Vec<u8> = vec![
        60u8, 47u8, 65u8, 116u8, 116u8, 114u8, 105u8, 98u8, 117u8, 116u8, 101u8, 86u8, 97u8,
        108u8, 117u8, 101u8, 62u8,
    ];
    proof {
        assert(r@ =~= val_close());
    }
    r
}

fn stmt_marker_bytes() -> (r: Vec<u8>)
    ensures
        r@ == stmt_marker(),
{
    let r: Vec<u8> = vec![
        60u8, 65u8, 116u8, 116u8, 114u8, 105u8, 98u8, 117u8, 116u8, 101u8, 83u8, 116u8, 97u8,
        116u8, 101u8, 109u8, 101u8, 110u8, 116u8,
    ];
    proof {
        assert(r@ =~= stmt_marker());
    }
    r
}

/// Mathematical model of one named attribute with its ordered values.
pub ghost struct AttrModel {
    pub name: Seq<u8>,
    pub values: Seq<Seq<u8>>,
}

/// One named attribute of the assertion, holding its values in order.
pub struct SamlAttribute {
    pub name: Vec<u8>,
    pub values: Vec<Vec<u8>>,
}

/// The decoded assertion: its attributes, in document order.
pub struct SamlAssertion {
    pub attributes: Vec<SamlAttribute>,
}

/// The views of a sequence of byte vectors.
pub open spec fn views_of(s: Seq<Vec<u8>>) -> Seq<Seq<u8>> {
    s.map_values(|x: Vec<u8>| x@)
}

/// The models of a sequence of attributes.
pub open spec fn models_of(s: Seq<SamlAttribute>) -> Seq<AttrModel> {
    s.map_values(|a: SamlAttribute| a@)
}

impl View for SamlAttribute {
    type V = AttrModel;

    open spec fn view(&self) -> AttrModel {
        AttrModel { name: self.name@, values: views_of(self.values@) }
    }
}

impl View for SamlAssertion {
    type V = Seq<AttrModel>;

    open spec fn view(&self) -> Seq<AttrModel> {
        models_of(self.attributes@)
    }
}

proof fn lemma_views_of_insert_front(s: Seq<Vec<u8>>, v: Vec<u8>)
    ensures
        views_of(s.insert(0, v)) == seq![v@] + views_of(s),
{
    let a = views_of(s.insert(0, v));
    let b = seq![v@] + views_of(s);
    assert forall|i: int| 0 <= i < a.len() implies a[i] == b[i] by {
        if i == 0 {
            assert(s.insert(0, v)[0] == v);
        } else {
            assert(s.insert(0, v)[i] == s[i - 1]);
        }
    }
    assert(a =~= b);
}

proof fn lemma_models_of_insert_front(s: Seq<SamlAttribute>, a: SamlAttribute)
    ensures
        models_of(s.insert(0, a)) == seq![a@] + models_of(s),
{
    let x = models_of(s.insert(0, a));
    let y = seq![a@] + models_of(s);
    assert forall|i: int| 0 <= i < x.len() implies x[i] == y[i] by {
        if i == 0 {
            assert(s.insert(0, a)[0] == a);
        } else {
            assert(s.insert(0, a)[i] == s[i - 1]);
        }
    }
    assert(x =~= y);
}

/// The attribute values lying between `from` and `end`: for each
/// `<AttributeValue>` opener, the bytes up to the matching closer; an
/// opener without a closer makes the region malformed.
pub open spec fn spec_parse_values(xml: Seq<u8>, from: int, end: int) -> Option<Seq<Seq<u8>>>
    decreases end - from,
{
    match first_match_in(xml, val_open(), from, end) {
        None => Some(Seq::empty()),
        Some(i) => {
            let vstart = i + val_open().len();
            match first_match_in(xml, val_close(), vstart, end) {
                None => None,
                Some(j) => {
                    proof {
                        lemma_first_match_in_first(xml, val_open(), from, end);
                        lemma_first_match_in_first(xml, val_close(), vstart, end);
                    }
                    match spec_parse_values(xml, j + val_close().len(), end) {
                        None => None,
                        Some(rest) => Some(seq![xml.subrange(vstart, j)] + rest),
                    }
                },
            }
        },
    }
}

/// The attributes of the document from `from` on: for each
/// `<Attribute Name="` opener, the name up to the closing quote and the
/// values up to the matching `</Attribute>`; a missing quote or closing
/// tag makes the document malformed.
pub open spec fn spec_parse_attrs(xml: Seq<u8>, from: int) -> Option<Seq<AttrModel>>
    decreases xml.len() - from,
{
    let end = xml.len() as int;
    match first_match_in(xml, attr_open(), from, end) {
        None => Some(Seq::empty()),
        Some(i) => {
            let nstart = i + attr_open().len();
            match first_match_in(xml, quote_marker(), nstart, end) {
                None => None,
                Some(j) => {
                    match first_match_in(xml, attr_close(), j, end) {
                        None => None,
                        Some(k) => {
                            proof {
                                lemma_first_match_in_first(xml, attr_open(), from, end);
                                lemma_first_match_in_first(xml, quote_marker(), nstart, end);
                                lemma_first_match_in_first(xml, attr_close(), j, end);
                            }
                            match spec_parse_values(xml, j, k) {
                                None => None,
                                Some(vals) => {
                                    match spec_parse_attrs(xml, k + attr_close().len()) {
                                        None => None,
                                        Some(rest) => Some(
                                            seq![
                                                AttrModel {
                                                    name: xml.subrange(nstart, j),
                                                    values: vals,
                                                },
                                            ] + rest,
                                        ),
                                    }
                                },
                            }
                        },
                    }
                },
            }
        },
    }
}

/// The attribute list of a decoded payload: present only when the payload
/// holds an `<AttributeStatement` element and every attribute is well
/// formed.
pub open spec fn spec_parse_assertion(decoded: Seq<u8>) -> Option<Seq<AttrModel>> {
    if first_match_in(decoded, stmt_marker(), 0, decoded.len() as int) is None {
        None
    } else {
        spec_parse_attrs(decoded, 0)
    }
}

fn parse_values(xml: &[u8], from: usize, end: usize) -> (r: Result<Vec<Vec<u8>>, ParseError>)
    requires
        from <= end,
        end <= xml@.len(),
    ensures
        match r {
            Ok(v) => spec_parse_values(xml@, from as int, end as int) == Some(views_of(v@)),
            Err(e) => spec_parse_values(xml@, from as int, end as int) is None && e
                == ParseError::InvalidAssertion,
        },
    decreases end - from,
{
    let vopen = val_open_bytes();
    let vclose = val_close_bytes();
    match find_in(xml, vopen.as_slice(), from, end) {
        None => {
            let v: Vec<Vec<u8>> = Vec::new();
            proof {
                assert(views_of(v@) =~= Seq::<Seq<u8>>::empty());
            }
            Ok(v)
        },
        Some(i) => {
            proof {
                lemma_first_match_in_first(xml@, val_open(), from as int, end as int);
            }
            let vstart = i + vopen.len();
            match find_in(xml, vclose.as_slice(), vstart, end) {
                None => Err(ParseError::InvalidAssertion),
                Some(j) => {
                    proof {
                        lemma_first_match_in_first(xml@, val_close(), vstart as int, end as int);
                    }
                    let val = copy_range(xml, vstart, j);
                    let ghost valv = val@;
                    let next = j + vclose.len();
                    match parse_values(xml, next, end) {
                        Err(e) => Err(e),
                        Ok(mut rest) => {
                            let ghost rest0 = rest@;
                            rest.insert(0, val);
                            proof {
                                lemma_views_of_insert_front(rest0, rest@[0]);
                                assert(rest@[0]@ == valv);
                            }
                            Ok(rest)
                        },
                    }
                },
            }
        },
    }
}

fn parse_attrs(xml: &[u8], from: usize) -> (r: Result<Vec<SamlAttribute>, ParseError>)
    requires
        from <= xml@.len(),
    ensures
        match r {
            Ok(v) => spec_parse_attrs(xml@, from as int) == Some(models_of(v@)),
            Err(e) => spec_parse_attrs(xml@, from as int) is None && e
                == ParseError::InvalidAssertion,
        },
    decreases xml@.len() - from,
{
    let end = xml.len();
    let aopen = attr_open_bytes();
    let aclose = attr_close_bytes();
    let quote = quote_marker_bytes();
    match find_in(xml, aopen.as_slice(), from, end) {
        None => {
            let v: Vec<SamlAttribute> = Vec::new();
            proof {
                assert(models_of(v@) =~= Seq::<AttrModel>::empty());
            }
            Ok(v)
        },
        Some(i) => {
            proof {
                lemma_first_match_in_first(xml@, attr_open(), from as int, end as int);
            }
            let nstart = i + aopen.len();
            match find_in(xml, quote.as_slice(), nstart, end) {
                None => Err(ParseError::InvalidAssertion),
                Some(j) => {
                    proof {
                        lemma_first_match_in_first(xml@, quote_marker(), nstart as int, end as int);
                    }
                    match find_in(xml, aclose.as_slice(), j, end) {
                        None => Err(ParseError::InvalidAssertion),
                        Some(k) => {
                            proof {
                                lemma_first_match_in_first(xml@, attr_close(), j as int, end as int);
                            }
                            let name = copy_range(xml, nstart, j);
                            let ghost namev = name@;
                            match parse_values(xml, j, k) {
                                Err(e) => Err(e),
                                Ok(vals) => {
                                    let ghost valsv = views_of(vals@);
                                    let next = k + aclose.len();
                                    match parse_attrs(xml, next) {
                                        Err(e) => Err(e),
                                        Ok(mut rest) => {
                                            let ghost rest0 = rest@;
                                            let attr = SamlAttribute { name, values: vals };
                                            proof {
                                                assert(attr@ == AttrModel {
                                                    name: namev,
                                                    values: valsv,
                                                });
                                            }
                                            rest.insert(0, attr);
                                            proof {
                                                lemma_models_of_insert_front(rest0, rest@[0]);
                                            }
                                            Ok(rest)
                                        },
                                    }
                                },
                            }
                        },
                    }
                },
            }
        },
    }
}

/// Parses the decoded SAML payload into its attribute list, exactly as
/// `spec_parse_assertion` describes it; a structural mismatch is an
/// `InvalidAssertion` failure.
pub fn parse_assertion(decoded: &[u8]) -> (r: Result<SamlAssertion, ParseError>)
    ensures
        match r {
            Ok(a) => spec_parse_assertion(decoded@) == Some(a@),
            Err(e) => spec_parse_assertion(decoded@) is None && e == ParseError::InvalidAssertion,
        },
{
    let stmt = stmt_marker_bytes();
    match find_in(decoded, stmt.as_slice(), 0, decoded.len()) {
        None => Err(ParseError::InvalidAssertion),
        Some(_) => {
            match parse_attrs(decoded, 0) {
                Err(e) => Err(e),
                Ok(attributes) => Ok(SamlAssertion { attributes }),
            }
        },
    }
}

} // verus!

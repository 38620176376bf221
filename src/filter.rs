//! The search criteria and the fail-closed conjunctive filter over canonical
//! properties.
use vstd::prelude::*;
use crate::model::{source_name, PropertyView, Source, StandardizedProperty};
use crate::price::Amount;
use crate::text::{contains_text, lower_of, text_contains};

verus! {

/// Optional search criteria; an absent criterion imposes nothing.
pub struct SearchParams {
    pub source: Option<String>,
    pub min_price: Option<Amount>,
    pub max_price: Option<Amount>,
    pub bedrooms: Option<i64>,
    pub property_type: Option<String>,
    pub ber_rating: Option<String>,
}

pub ghost struct CriteriaView {
    pub source: Option<Seq<char>>,
    pub min_price: Option<u64>,
    pub max_price: Option<u64>,
    pub bedrooms: Option<i64>,
    pub property_type: Option<Seq<char>>,
    pub ber_rating: Option<Seq<char>>,
}

impl View for SearchParams {
    type V = CriteriaView;

    open spec fn view(&self) -> CriteriaView {
        CriteriaView {
            source: crate::model::text_view(self.source),
            min_price: match self.min_price {
                Some(a) => Some(a.micros),
                None => None,
            },
            max_price: match self.max_price {
                Some(a) => Some(a.micros),
                None => None,
            },
            bedrooms: self.bedrooms,
            property_type: crate::model::text_view(self.property_type),
            ber_rating: crate::model::text_view(self.ber_rating),
        }
    }
}

/// The source whose name is exactly `t`.
pub open spec fn source_named(t: Seq<char>) -> Option<Source> {
    if t == source_name(Source::Daft) {
        Some(Source::Daft)
    } else if t == source_name(Source::MyHome) {
        Some(Source::MyHome)
    } else if t == source_name(Source::PropertyIe) {
        Some(Source::PropertyIe)
    } else {
        None
    }
}

/// Whether two texts are equal.
pub fn text_equals(a: &str, b: &str) -> (r: bool)
    ensures
        r == (a@ == b@),
{
    let n = a.unicode_len();
    if n != b.unicode_len() {
        return false;
    }
    let mut i: usize = 0;
    while i < n
        invariant
            n == a@.len(),
            n == b@.len(),
            i <= n,
            forall|k: int| 0 <= k < i ==> a@[k] == b@[k],
        decreases n - i,
    {
        if a.get_char(i) != b.get_char(i) {
            return false;
        }
        i = i + 1;
    }
    assert(a@ =~= b@);
    true
}

/// The source named by an already lower-cased text.
pub fn source_from_folded_name(folded: &str) -> (r: Option<Source>)
    ensures
        r == source_named(folded@),
{
    if text_equals(folded, Source::Daft.name()) {
        Some(Source::Daft)
    } else if text_equals(folded, Source::MyHome.name()) {
        Some(Source::MyHome)
    } else if text_equals(folded, Source::PropertyIe.name()) {
        Some(Source::PropertyIe)
    } else {
        None
    }
}

/// The source named by a text, in any case.
pub fn source_from_name(name: &str) -> (r: Option<Source>)
    ensures
        r == source_named(lower_of(name@)),
{
    let folded = name.to_lowercase();
    source_from_folded_name(folded.as_str())
}

/// Every criterion given holds of the property. Texts compare case-insensitively,
/// type and rating by containment; a property that lacks an attribute that a
/// criterion constrains fails it.
pub open spec fn matches_criteria(p: PropertyView, c: CriteriaView) -> bool {
    &&& (c.source matches Some(s) ==> source_named(lower_of(s)) == Some(p.source))
    &&& (c.min_price matches Some(m) ==> p.price.amount >= m)
    &&& (c.max_price matches Some(m) ==> p.price.amount <= m)
    &&& (c.bedrooms matches Some(b) ==> p.bedrooms == Some(b))
    &&& (c.property_type matches Some(t) ==> contains_text(
        lower_of(p.property_type),
        lower_of(t),
    ))
    &&& (c.ber_rating matches Some(t) ==> (p.ber_rating matches Some(r) && contains_text(
        lower_of(r),
        lower_of(t),
    )))
}

/// Whether `hay` contains `needle`, ignoring case.
pub fn contains_ignoring_case(hay: &str, needle: &str) -> (r: bool)
    ensures
        r == contains_text(lower_of(hay@), lower_of(needle@)),
{
    let h = hay.to_lowercase();
    let n = needle.to_lowercase();
    text_contains(h.as_str(), n.as_str())
}

/// Applies the search criteria to a property.
pub fn should_include_property(property: &StandardizedProperty, params: &SearchParams) -> (r: bool)
    ensures
        r == matches_criteria(property@, params@),
{
    if let Some(name) = &params.source {
        match source_from_name(name.as_str()) {
            Some(s) => {
                if s != property.source {
                    return false;
                }
            },
            None => return false,
        }
    }
    if let Some(min_price) = params.min_price {
        if property.price.amount.micros < min_price.micros {
            return false;
        }
    }
    if let Some(max_price) = params.max_price {
        if property.price.amount.micros > max_price.micros {
            return false;
        }
    }
    if let Some(bedrooms) = params.bedrooms {
        match property.bedrooms {
            Some(beds) => {
                if beds != bedrooms {
                    return false;
                }
            },
            None => return false,
        }
    }
    if let Some(wanted) = &params.property_type {
        if !contains_ignoring_case(property.property_type.as_str(), wanted.as_str()) {
            return false;
        }
    }
    if let Some(wanted) = &params.ber_rating {
        match &property.ber_rating {
            Some(rating) => {
                if !contains_ignoring_case(rating.as_str(), wanted.as_str()) {
                    return false;
                }
            },
            None => return false,
        }
    }
    true
}

/// The sources that a search reads: all of them, or the one its source
/// criterion names (none where it names no source).
pub open spec fn requested_sources(c: CriteriaView) -> Seq<Source> {
    match c.source {
        None => seq![Source::Daft, Source::MyHome, Source::PropertyIe],
        Some(s) => match source_named(lower_of(s)) {
            Some(src) => seq![src],
            None => seq![],
        },
    }
}

/// The sources that a search reads, in order.
pub fn sources_to_search(params: &SearchParams) -> (r: Vec<Source>)
    ensures
        r@ == requested_sources(params@),
{
    match &params.source {
        None => {
            let r = vec![Source::Daft, Source::MyHome, Source::PropertyIe];
            assert(r@ =~= seq![Source::Daft, Source::MyHome, Source::PropertyIe]);
            r
        },
        Some(name) => match source_from_name(name.as_str()) {
            Some(s) => {
                let r = vec![s];
                assert(r@ =~= seq![s]);
                r
            },
            None => {
                let r: Vec<Source> = Vec::new();
                assert(r@ =~= Seq::<Source>::empty());
                r
            },
        },
    }
}

} // verus!

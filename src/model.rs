//! The canonical property model that every source is normalised into, and its
//! mathematical view.
use vstd::prelude::*;
use vstd::string::StringExecFns;
use crate::price::Amount;

verus! {

/// The providers whose listings are normalised.
#[derive(Clone, Copy, Debug, PartialEq, Eq, Structural)]
pub enum Source {
    Daft,
    MyHome,
    PropertyIe,
}

/// The name of a source, which also prefixes its properties' identifiers.
pub open spec fn source_name(s: Source) -> Seq<char> {
    match s {
        Source::Daft => "daft"@,
        Source::MyHome => "myhome"@,
        Source::PropertyIe => "property"@,
    }
}

impl Source {
    pub fn name(&self) -> (r: &'static str)
        ensures
            r@ == source_name(*self),
    {
        match self {
            Source::Daft => "daft",
            Source::MyHome => "myhome",
            Source::PropertyIe => "property",
        }
    }
}

#[derive(Debug)]
pub struct Address {
    pub display_address: String,
}

/// A floor area; `value_bits` is the IEEE-754 bit pattern of its magnitude.
#[derive(Debug)]
pub struct Size {
    pub value_bits: u64,
    pub unit: String,
}

#[derive(Debug)]
pub struct PriceChange {
    pub date: String,
    pub amount: Amount,
    pub direction: String,
}

#[derive(Debug)]
pub struct Price {
    pub amount: Amount,
    pub currency: String,
    pub frequency: Option<String>,
    pub price_changes: Vec<PriceChange>,
}

#[derive(Debug)]
pub struct Photo {
    pub url: String,
    pub is_main: bool,
}

#[derive(Debug)]
pub struct Agent {
    pub name: String,
    pub phone: String,
    pub email: String,
    pub address: String,
}

/// One listing in the canonical model.
#[derive(Debug)]
pub struct StandardizedProperty {
    pub property_id: String,
    pub source: Source,
    pub source_id: String,
    pub address: Address,
    pub property_type: String,
    pub bedrooms: Option<i64>,
    pub bathrooms: Option<i64>,
    pub size: Option<Size>,
    pub ber_rating: Option<String>,
    pub price: Price,
    pub created_date: String,
    pub updated_date: String,
    pub listing_type: String,
    pub status: String,
    pub photos: Vec<Photo>,
    pub has_video: bool,
    pub agent: Option<Agent>,
    pub seo_url: Option<String>,
}

pub ghost struct SizeView {
    pub value_bits: u64,
    pub unit: Seq<char>,
}

pub ghost struct PriceChangeView {
    pub date: Seq<char>,
    pub amount: u64,
    pub direction: Seq<char>,
}

pub ghost struct PriceView {
    pub amount: u64,
    pub currency: Seq<char>,
    pub frequency: Option<Seq<char>>,
    pub price_changes: Seq<PriceChangeView>,
}

pub ghost struct PhotoView {
    pub url: Seq<char>,
    pub is_main: bool,
}

pub ghost struct AgentView {
    pub name: Seq<char>,
    pub phone: Seq<char>,
    pub email: Seq<char>,
    pub address: Seq<char>,
}

/// A property as plain mathematical values.
pub ghost struct PropertyView {
    pub property_id: Seq<char>,
    pub source: Source,
    pub source_id: Seq<char>,
    pub address: Seq<char>,
    pub property_type: Seq<char>,
    pub bedrooms: Option<i64>,
    pub bathrooms: Option<i64>,
    pub size: Option<SizeView>,
    pub ber_rating: Option<Seq<char>>,
    pub price: PriceView,
    pub created_date: Seq<char>,
    pub updated_date: Seq<char>,
    pub listing_type: Seq<char>,
    pub status: Seq<char>,
    pub photos: Seq<PhotoView>,
    pub has_video: bool,
    pub agent: Option<AgentView>,
    pub seo_url: Option<Seq<char>>,
}

pub open spec fn text_view(o: Option<String>) -> Option<Seq<char>> {
    match o {
        Some(s) => Some(s@),
        None => None,
    }
}

impl View for Photo {
    type V = PhotoView;

    open spec fn view(&self) -> PhotoView {
        PhotoView { url: self.url@, is_main: self.is_main }
    }
}

impl View for Agent {
    type V = AgentView;

    open spec fn view(&self) -> AgentView {
        AgentView {
            name: self.name@,
            phone: self.phone@,
            email: self.email@,
            address: self.address@,
        }
    }
}

impl View for PriceChange {
    type V = PriceChangeView;

    open spec fn view(&self) -> PriceChangeView {
        PriceChangeView { date: self.date@, amount: self.amount.micros, direction: self.direction@ }
    }
}

impl View for Price {
    type V = PriceView;

    open spec fn view(&self) -> PriceView {
        PriceView {
            amount: self.amount.micros,
            currency: self.currency@,
            frequency: text_view(self.frequency),
            price_changes: self.price_changes@.map_values(|c: PriceChange| c@),
        }
    }
}

impl View for StandardizedProperty {
    type V = PropertyView;

    open spec fn view(&self) -> PropertyView {
        PropertyView {
            property_id: self.property_id@,
            source: self.source,
            source_id: self.source_id@,
            address: self.address.display_address@,
            property_type: self.property_type@,
            bedrooms: self.bedrooms,
            bathrooms: self.bathrooms,
            size: match self.size {
                Some(z) => Some(SizeView { value_bits: z.value_bits, unit: z.unit@ }),
                None => None,
            },
            ber_rating: text_view(self.ber_rating),
            price: self.price@,
            created_date: self.created_date@,
            updated_date: self.updated_date@,
            listing_type: self.listing_type@,
            status: self.status@,
            photos: self.photos@.map_values(|p: Photo| p@),
            has_video: self.has_video,
            agent: match self.agent {
                Some(a) => Some(a@),
                None => None,
            },
            seo_url: text_view(self.seo_url),
        }
    }
}

/// The attributes in which sources differ; the rest of the canonical model is
/// fixed or derived from them.
pub struct Attributes {
    pub source: Source,
    pub source_id: String,
    pub address: String,
    pub property_type: String,
    pub bedrooms: Option<i64>,
    pub bathrooms: Option<i64>,
    pub size_bits: Option<u64>,
    pub ber_rating: Option<String>,
    pub amount: Amount,
    pub created_date: String,
    pub updated_date: String,
    pub active: bool,
    pub photos: Vec<Photo>,
    pub has_video: bool,
    pub agent: Option<Agent>,
    pub seo_url: Option<String>,
}

pub ghost struct AttributesView {
    pub source: Source,
    pub source_id: Seq<char>,
    pub address: Seq<char>,
    pub property_type: Seq<char>,
    pub bedrooms: Option<i64>,
    pub bathrooms: Option<i64>,
    pub size_bits: Option<u64>,
    pub ber_rating: Option<Seq<char>>,
    pub amount: u64,
    pub created_date: Seq<char>,
    pub updated_date: Seq<char>,
    pub active: bool,
    pub photos: Seq<PhotoView>,
    pub has_video: bool,
    pub agent: Option<AgentView>,
    pub seo_url: Option<Seq<char>>,
}

impl View for Attributes {
    type V = AttributesView;

    open spec fn view(&self) -> AttributesView {
        AttributesView {
            source: self.source,
            source_id: self.source_id@,
            address: self.address@,
            property_type: self.property_type@,
            bedrooms: self.bedrooms,
            bathrooms: self.bathrooms,
            size_bits: self.size_bits,
            ber_rating: text_view(self.ber_rating),
            amount: self.amount.micros,
            created_date: self.created_date@,
            updated_date: self.updated_date@,
            active: self.active,
            photos: self.photos@.map_values(|p: Photo| p@),
            has_video: self.has_video,
            agent: match self.agent {
                Some(a) => Some(a@),
                None => None,
            },
            seo_url: text_view(self.seo_url),
        }
    }
}

/// No two photos share a URL.
pub open spec fn urls_distinct(ps: Seq<PhotoView>) -> bool {
    forall|i: int, j: int| 0 <= i < j < ps.len() ==> ps[i].url != ps[j].url
}

/// Only the first photo may be marked main.
pub open spec fn main_first_only(ps: Seq<PhotoView>) -> bool {
    forall|k: int| 0 < k < ps.len() ==> !(#[trigger] ps[k]).is_main
}

/// What holds of every canonical property: its identifier is derived from its
/// source and native identifier, its photos have distinct URLs with only the
/// first marked main, an energy rating is never empty, a size is in square
/// metres, and its status is active or inactive.
pub open spec fn is_well_formed(p: PropertyView) -> bool {
    &&& p.property_id == property_id_of(p.source, p.source_id)
    &&& urls_distinct(p.photos)
    &&& main_first_only(p.photos)
    &&& (p.ber_rating matches Some(r) ==> r.len() > 0)
    &&& (p.size matches Some(z) ==> z.unit == "square_meters"@)
    &&& (p.status == "active"@ || p.status == "inactive"@)
    &&& p.price.currency == "EUR"@
    &&& p.listing_type == "rent"@
}

/// The identifier of a property: its source's name, `_`, and its native identifier.
pub open spec fn property_id_of(source: Source, source_id: Seq<char>) -> Seq<char> {
    source_name(source) + seq!['_'] + source_id
}

/// The canonical property with the given attributes: priced in euro per month,
/// listed for rent, with no recorded price changes.
pub open spec fn canonical(a: AttributesView) -> PropertyView {
    PropertyView {
        property_id: property_id_of(a.source, a.source_id),
        source: a.source,
        source_id: a.source_id,
        address: a.address,
        property_type: a.property_type,
        bedrooms: a.bedrooms,
        bathrooms: a.bathrooms,
        size: match a.size_bits {
            Some(b) => Some(SizeView { value_bits: b, unit: "square_meters"@ }),
            None => None,
        },
        ber_rating: a.ber_rating,
        price: PriceView {
            amount: a.amount,
            currency: "EUR"@,
            frequency: Some("month"@),
            price_changes: seq![],
        },
        created_date: a.created_date,
        updated_date: a.updated_date,
        listing_type: "rent"@,
        status: if a.active { "active"@ } else { "inactive"@ },
        photos: a.photos,
        has_video: a.has_video,
        agent: a.agent,
        seo_url: a.seo_url,
    }
}

/// Builds the canonical property with the given attributes.
pub fn build_property(a: Attributes) -> (r: StandardizedProperty)
    ensures
        r@ == canonical(a@),
{
    let mut property_id = a.source.name().to_owned();
    property_id.push('_');
    property_id.append(a.source_id.as_str());
    let size = match a.size_bits {
        Some(b) => Some(Size { value_bits: b, unit: "square_meters".to_owned() }),
        None => None,
    };
    let status = if a.active { "active".to_owned() } else { "inactive".to_owned() };
    let r = StandardizedProperty {
        property_id,
        source: a.source,
        source_id: a.source_id,
        address: Address { display_address: a.address },
        property_type: a.property_type,
        bedrooms: a.bedrooms,
        bathrooms: a.bathrooms,
        size,
        ber_rating: a.ber_rating,
        price: Price {
            amount: a.amount,
            currency: "EUR".to_owned(),
            frequency: Some("month".to_owned()),
            price_changes: Vec::new(),
        },
        created_date: a.created_date,
        updated_date: a.updated_date,
        listing_type: "rent".to_owned(),
        status,
        photos: a.photos,
        has_video: a.has_video,
        agent: a.agent,
        seo_url: a.seo_url,
    };
    assert(r.price@.price_changes =~= Seq::<PriceChangeView>::empty());
    assert(r@.property_id == canonical(a@).property_id);
    r
}

} // verus!

//! One parser per provider, each mapping a raw record of that provider's fixed
//! schema to a canonical property, or to `None` where the record lacks an
//! identifier or a valid price.
use vstd::prelude::*;
use crate::model::{
    build_property, canonical, is_well_formed, main_first_only, text_view, urls_distinct, AgentView, Attributes, AttributesView, Photo, PhotoView,
    PropertyView, Source, StandardizedProperty, Agent,
};
use crate::price::{parse_price_string, price_text_micros, Amount};
use crate::record::{
    bool_at, double_at, get_bool, get_double, get_group, get_list, get_long, get_string, group_at,
    list_at, long_at, string_at, Record, Value,
};
use crate::text::{int_numeral, int_to_text, trim_text, trimmed};

verus! {

// Flat columns of a property.ie record.
pub const PROPERTY_IE_ADDRESS: usize = 0;
pub const PROPERTY_IE_PRICE: usize = 1;
pub const PROPERTY_IE_ID: usize = 2;

// Flat columns of a MyHome record.
pub const MYHOME_ID: usize = 0;
pub const MYHOME_REFRESHED_ON: usize = 3;
pub const MYHOME_GROUP_PHONE: usize = 6;
pub const MYHOME_GROUP_EMAIL: usize = 7;
pub const MYHOME_GROUP_NAME: usize = 8;
pub const MYHOME_GROUP_ADDRESS: usize = 9;
pub const MYHOME_CREATED_ON: usize = 11;
pub const MYHOME_IS_ACTIVE: usize = 28;
pub const MYHOME_HAS_VIDEOS: usize = 31;
pub const MYHOME_BEDS: usize = 36;
pub const MYHOME_PRICE: usize = 37;
pub const MYHOME_SIZE_METERS: usize = 40;
pub const MYHOME_DISPLAY_ADDRESS: usize = 42;
pub const MYHOME_PROPERTY_TYPE: usize = 46;
pub const MYHOME_BATHROOMS: usize = 48;
pub const MYHOME_BER_RATING: usize = 49;
pub const MYHOME_SEO_URL: usize = 55;
pub const MYHOME_MAIN_PHOTO: usize = 61;
pub const MYHOME_PHOTOS: usize = 63;

// Daft nests its fields in one listing group, the first column.
pub const DAFT_LISTING: usize = 0;
// Positions within the listing group.
pub const DAFT_PRICE: usize = 0;
pub const DAFT_BER: usize = 1;
pub const DAFT_PROPERTY_TYPE: usize = 2;
pub const DAFT_ID: usize = 3;
pub const DAFT_TITLE: usize = 5;
pub const DAFT_MEDIA: usize = 8;
pub const DAFT_SEO_PATH: usize = 23;
// The rating within the BER group.
pub const DAFT_BER_RATING: usize = 2;

pub open spec fn text_or(o: Option<Seq<char>>, default: Seq<char>) -> Seq<char> {
    match o {
        Some(t) => t,
        None => default,
    }
}

/// An optional text in which the empty text stands for absence.
pub open spec fn non_empty(o: Option<Seq<char>>) -> Option<Seq<char>> {
    match o {
        Some(t) => if t.len() > 0 { Some(t) } else { None },
        None => None,
    }
}

pub open spec fn opt_view(r: Option<StandardizedProperty>) -> Option<PropertyView> {
    match r {
        Some(p) => Some(p@),
        None => None,
    }
}

fn text_or_default(o: Option<String>, default: &str) -> (r: String)
    ensures
        r@ == text_or(text_view(o), default@),
{
    match o {
        Some(t) => t,
        None => default.to_owned(),
    }
}

fn keep_non_empty(o: Option<String>) -> (r: Option<String>)
    ensures
        text_view(r) == non_empty(text_view(o)),
{
    match o {
        Some(t) => if t.unicode_len() > 0 { Some(t) } else { None },
        None => None,
    }
}

/// A property.ie listing: its three text fields as the provider gives them.
pub struct PropertyIEListing {
    pub address: String,
    pub price: String,
    pub id: String,
}

/// The property a property.ie listing gives: it needs an identifier that is
/// not blank and a price text that yields an amount.
pub open spec fn property_ie_view(
    address: Seq<char>,
    price: Seq<char>,
    id: Seq<char>,
    ingested_at: Seq<char>,
) -> Option<PropertyView> {
    match price_text_micros(price) {
        Some(m) => if trimmed(id).len() > 0 {
            Some(
                canonical(
                    AttributesView {
                        source: Source::PropertyIe,
                        source_id: id,
                        address: trimmed(address),
                        property_type: seq![],
                        bedrooms: None,
                        bathrooms: None,
                        size_bits: None,
                        ber_rating: None,
                        amount: m,
                        created_date: ingested_at,
                        updated_date: ingested_at,
                        active: true,
                        photos: seq![],
                        has_video: false,
                        agent: None,
                        seo_url: None,
                    },
                ),
            )
        } else {
            None
        },
        None => None,
    }
}

impl StandardizedProperty {
    /// Normalises a property.ie listing; its timestamps are the ingestion time.
    pub fn from_property_ie(raw: PropertyIEListing, ingested_at: &str) -> (r: Option<
        StandardizedProperty,
    >)
        ensures
            opt_view(r) == property_ie_view(raw.address@, raw.price@, raw.id@, ingested_at@),
    {
        let amount = match parse_price_string(raw.price.as_str()) {
            Some(a) => a,
            None => return None,
        };
        if trim_text(raw.id.as_str()).unicode_len() == 0 {
            return None;
        }
        let a = Attributes {
            source: Source::PropertyIe,
            source_id: raw.id,
            address: trim_text(raw.address.as_str()),
            property_type: String::new(),
            bedrooms: None,
            bathrooms: None,
            size_bits: None,
            ber_rating: None,
            amount,
            created_date: ingested_at.to_owned(),
            updated_date: ingested_at.to_owned(),
            active: true,
            photos: Vec::new(),
            has_video: false,
            agent: None,
            seo_url: None,
        };
        assert(a@.photos =~= Seq::<PhotoView>::empty());
        Some(build_property(a))
    }
}

/// The property a raw property.ie record gives.
pub open spec fn property_ie_record_view(fs: Seq<Value>, ingested_at: Seq<char>) -> Option<
    PropertyView,
> {
    match string_at(fs, PROPERTY_IE_ID as int) {
        Some(id) => property_ie_view(
            text_or(string_at(fs, PROPERTY_IE_ADDRESS as int), seq![]),
            text_or(string_at(fs, PROPERTY_IE_PRICE as int), seq![]),
            id,
            ingested_at,
        ),
        None => None,
    }
}

/// Parses a raw property.ie record: address, price text and identifier are its
/// first three columns.
pub fn parse_property_ie_row(row: &Record, ingested_at: &str) -> (r: Option<StandardizedProperty>)
    ensures
        opt_view(r) == property_ie_record_view(row.fields@, ingested_at@),
{
    let id = match get_string(&row.fields, PROPERTY_IE_ID) {
        Some(id) => id,
        None => return None,
    };
    let address = text_or_default(get_string(&row.fields, PROPERTY_IE_ADDRESS), "");
    let price = text_or_default(get_string(&row.fields, PROPERTY_IE_PRICE), "");
    proof {
        reveal_strlit("");
        assert(""@ =~= Seq::<char>::empty());
    }
    StandardizedProperty::from_property_ie(PropertyIEListing { address, price, id }, ingested_at)
}


/// Whether some photo of `ps` has the URL `url`.
pub open spec fn has_url(ps: Seq<PhotoView>, url: Seq<char>) -> bool {
    exists|k: int| 0 <= k < ps.len() && (#[trigger] ps[k]).url == url
}

/// `start` followed by the URLs of the string items of `items`, in order, each
/// as a secondary photo and each only where no earlier photo has its URL.
pub open spec fn with_listed_photos(start: Seq<PhotoView>, items: Seq<Value>) -> Seq<PhotoView>
    decreases items.len(),
{
    if items.len() == 0 {
        start
    } else {
        let before = with_listed_photos(start, items.drop_last());
        match string_at(items, items.len() - 1) {
            Some(url) => if has_url(before, url) {
                before
            } else {
                before.push(PhotoView { url, is_main: false })
            },
            None => before,
        }
    }
}

/// The photos of a listing: the primary photo first, marked main, then the
/// secondary list without repeated URLs.
pub open spec fn listing_photos(main: Option<Seq<char>>, listed: Option<Seq<Value>>) -> Seq<
    PhotoView,
> {
    let start = match main {
        Some(url) => seq![PhotoView { url, is_main: true }],
        None => seq![],
    };
    match listed {
        Some(items) => with_listed_photos(start, items),
        None => start,
    }
}

proof fn lemma_listed_photos_extend(start: Seq<PhotoView>, items: Seq<Value>)
    ensures
        with_listed_photos(start, items).len() >= start.len(),
        forall|k: int|
            0 <= k < start.len() ==> #[trigger] with_listed_photos(start, items)[k] == start[k],
        forall|k: int|
            start.len() <= k < with_listed_photos(start, items).len() ==> !(
            #[trigger] with_listed_photos(start, items)[k]).is_main,
        urls_distinct(start) ==> urls_distinct(with_listed_photos(start, items)),
    decreases items.len(),
{
    if items.len() > 0 {
        lemma_listed_photos_extend(start, items.drop_last());
    }
}

fn photo_listed(photos: &Vec<Photo>, url: &String) -> (r: bool)
    ensures
        r == has_url(photos@.map_values(|p: Photo| p@), url@),
{
    let ghost ps = photos@.map_values(|p: Photo| p@);
    let mut k: usize = 0;
    while k < photos.len()
        invariant
            ps == photos@.map_values(|p: Photo| p@),
            k <= photos.len(),
            forall|q: int| 0 <= q < k ==> (#[trigger] ps[q]).url != url@,
        decreases photos.len() - k,
    {
        if photos[k].url == *url {
            assert(ps[k as int].url == url@);
            return true;
        }
        k = k + 1;
    }
    false
}

/// The photos of a listing from its primary photo and its secondary list.
pub fn collect_photos(main: Option<String>, listed: Option<&Vec<Value>>) -> (r: Vec<Photo>)
    ensures
        r@.map_values(|p: Photo| p@) == listing_photos(
            text_view(main),
            match listed {
                Some(l) => Some(l@),
                None => None,
            },
        ),
        urls_distinct(r@.map_values(|p: Photo| p@)),
        main_first_only(r@.map_values(|p: Photo| p@)),
{
    let mut photos: Vec<Photo> = Vec::new();
    if let Some(url) = main {
        photos.push(Photo { url, is_main: true });
    }
    let ghost start = photos@.map_values(|p: Photo| p@);
    assert(start =~= listing_photos(text_view(main), None));
    if let Some(items) = listed {
        let mut i: usize = 0;
        while i < items.len()
            invariant
                i <= items.len(),
                start.len() <= 1,
                start.len() == 1 ==> start[0].is_main,
                photos@.map_values(|p: Photo| p@) == with_listed_photos(
                    start,
                    items@.take(i as int),
                ),
            decreases items.len() - i,
        {
            proof {
                assert(items@.take(i + 1).drop_last() =~= items@.take(i as int));
            }
            let ghost before = photos@.map_values(|p: Photo| p@);
            match &items[i] {
                Value::Str(url) => {
                    assert(string_at(items@.take(i + 1), i as int) == Some(url@));
                    if !photo_listed(&photos, url) {
                        photos.push(Photo { url: url.clone(), is_main: false });
                        assert(photos@.map_values(|p: Photo| p@) =~= before.push(
                            PhotoView { url: url@, is_main: false },
                        ));
                    }
                },
                _ => {
                    assert(string_at(items@.take(i + 1), i as int) is None);
                },
            }
            i = i + 1;
        }
        assert(items@.take(items.len() as int) =~= items@);
    }
    proof {
        let ps = photos@.map_values(|p: Photo| p@);
        let items = match listed {
            Some(l) => l@,
            None => seq![],
        };
        lemma_listed_photos_extend(start, items);
        assert(with_listed_photos(start, seq![]) == start);
    }
    photos
}

/// Where a listing has a primary photo, it comes first, marked main, and no
/// other photo has its URL, also where the secondary list repeats it.
pub proof fn lemma_primary_photo_once(main_url: Seq<char>, listed: Option<Seq<Value>>)
    ensures
        ({
            let ps = listing_photos(Some(main_url), listed);
            &&& ps.len() >= 1
            &&& ps[0] == PhotoView { url: main_url, is_main: true }
            &&& forall|k: int| 0 < k < ps.len() ==> (#[trigger] ps[k]).url != main_url
            &&& forall|k: int| 0 < k < ps.len() ==> !(#[trigger] ps[k]).is_main
        }),
{
    let start = seq![PhotoView { url: main_url, is_main: true }];
    let items = match listed {
        Some(l) => l,
        None => seq![],
    };
    lemma_listed_photos_extend(start, items);
    assert(with_listed_photos(start, seq![]) == start);
    let ps = listing_photos(Some(main_url), listed);
    assert(ps == with_listed_photos(start, items));
    assert forall|k: int| 0 < k < ps.len() implies (#[trigger] ps[k]).url != main_url by {
        assert(ps[0].url != ps[k].url);
    }
}


pub open spec fn myhome_agent(fs: Seq<Value>) -> AgentView {
    AgentView {
        name: text_or(string_at(fs, MYHOME_GROUP_NAME as int), seq![]),
        phone: text_or(string_at(fs, MYHOME_GROUP_PHONE as int), seq![]),
        email: text_or(string_at(fs, MYHOME_GROUP_EMAIL as int), seq![]),
        address: text_or(string_at(fs, MYHOME_GROUP_ADDRESS as int), seq![]),
    }
}

/// The attributes of a MyHome record with identifier `id` and amount `m`.
/// A missing timestamp is the ingestion time; a missing activity flag means active.
pub open spec fn myhome_attributes(fs: Seq<Value>, id: i64, m: u64, ingested_at: Seq<char>) -> AttributesView {
    AttributesView {
        source: Source::MyHome,
        source_id: int_numeral(id as int),
        address: text_or(string_at(fs, MYHOME_DISPLAY_ADDRESS as int), seq![]),
        property_type: text_or(string_at(fs, MYHOME_PROPERTY_TYPE as int), seq![]),
        bedrooms: long_at(fs, MYHOME_BEDS as int),
        bathrooms: long_at(fs, MYHOME_BATHROOMS as int),
        size_bits: double_at(fs, MYHOME_SIZE_METERS as int),
        ber_rating: non_empty(string_at(fs, MYHOME_BER_RATING as int)),
        amount: m,
        created_date: text_or(string_at(fs, MYHOME_CREATED_ON as int), ingested_at),
        updated_date: text_or(string_at(fs, MYHOME_REFRESHED_ON as int), ingested_at),
        active: match bool_at(fs, MYHOME_IS_ACTIVE as int) {
            Some(b) => b,
            None => true,
        },
        photos: listing_photos(
            string_at(fs, MYHOME_MAIN_PHOTO as int),
            list_at(fs, MYHOME_PHOTOS as int),
        ),
        has_video: match bool_at(fs, MYHOME_HAS_VIDEOS as int) {
            Some(b) => b,
            None => false,
        },
        agent: Some(myhome_agent(fs)),
        seo_url: string_at(fs, MYHOME_SEO_URL as int),
    }
}

/// The property a raw MyHome record gives: it needs an integer identifier and
/// a price text that yields an amount.
pub open spec fn myhome_record_view(fs: Seq<Value>, ingested_at: Seq<char>) -> Option<PropertyView> {
    match long_at(fs, MYHOME_ID as int) {
        Some(id) => match price_text_micros(text_or(string_at(fs, MYHOME_PRICE as int), seq![])) {
            Some(m) => Some(canonical(myhome_attributes(fs, id, m, ingested_at))),
            None => None,
        },
        None => None,
    }
}

fn read_myhome_agent(fs: &Vec<Value>) -> (r: Agent)
    ensures
        r@ == myhome_agent(fs@),
{
    proof {
        reveal_strlit("");
        assert(""@ =~= Seq::<char>::empty());
    }
    Agent {
        name: text_or_default(get_string(fs, MYHOME_GROUP_NAME), ""),
        phone: text_or_default(get_string(fs, MYHOME_GROUP_PHONE), ""),
        email: text_or_default(get_string(fs, MYHOME_GROUP_EMAIL), ""),
        address: text_or_default(get_string(fs, MYHOME_GROUP_ADDRESS), ""),
    }
}

fn read_myhome_attributes(fs: &Vec<Value>, id: i64, amount: Amount, ingested_at: &str) -> (r:
    Attributes)
    ensures
        r@ == myhome_attributes(fs@, id, amount.micros, ingested_at@),
{
    proof {
        reveal_strlit("");
        assert(""@ =~= Seq::<char>::empty());
    }
    let active = match get_bool(fs, MYHOME_IS_ACTIVE) {
        Some(b) => b,
        None => true,
    };
    let has_video = match get_bool(fs, MYHOME_HAS_VIDEOS) {
        Some(b) => b,
        None => false,
    };
    let agent = read_myhome_agent(fs);
    let photos = collect_photos(get_string(fs, MYHOME_MAIN_PHOTO), get_list(fs, MYHOME_PHOTOS));
    let source_id = int_to_text(id);
    let address = text_or_default(get_string(fs, MYHOME_DISPLAY_ADDRESS), "");
    let property_type = text_or_default(get_string(fs, MYHOME_PROPERTY_TYPE), "");
    let bedrooms = get_long(fs, MYHOME_BEDS);
    let bathrooms = get_long(fs, MYHOME_BATHROOMS);
    let size_bits = get_double(fs, MYHOME_SIZE_METERS);
    let ber_rating = keep_non_empty(get_string(fs, MYHOME_BER_RATING));
    let created_date = text_or_default(get_string(fs, MYHOME_CREATED_ON), ingested_at);
    let updated_date = text_or_default(get_string(fs, MYHOME_REFRESHED_ON), ingested_at);
    let seo_url = get_string(fs, MYHOME_SEO_URL);
    assert(text_view(seo_url) == string_at(fs@, MYHOME_SEO_URL as int));
    Attributes {
        source: Source::MyHome,
        source_id,
        address,
        property_type,
        bedrooms,
        bathrooms,
        size_bits,
        ber_rating,
        amount,
        created_date,
        updated_date,
        active,
        photos,
        has_video,
        agent: Some(agent),
        seo_url,
    }
}

/// Parses a raw MyHome record, whose fields are flat columns.
pub fn parse_myhome_row(row: &Record, ingested_at: &str) -> (r: Option<StandardizedProperty>)
    ensures
        opt_view(r) == myhome_record_view(row.fields@, ingested_at@),
{
    let fs = &row.fields;
    proof {
        reveal_strlit("");
        assert(""@ =~= Seq::<char>::empty());
    }
    let id = match get_long(fs, MYHOME_ID) {
        Some(id) => id,
        None => return None,
    };
    let price_text = text_or_default(get_string(fs, MYHOME_PRICE), "");
    let amount = match parse_price_string(price_text.as_str()) {
        Some(a) => a,
        None => return None,
    };
    Some(build_property(read_myhome_attributes(fs, id, amount, ingested_at)))
}


/// The URL of the first brochure in a Daft listing's media group.
pub open spec fn daft_brochure_url(l: Seq<Value>) -> Option<Seq<char>> {
    match group_at(l, DAFT_MEDIA as int) {
        Some(media) => match group_at(media.fields@, 0) {
            Some(brochures) => match group_at(brochures.fields@, 0) {
                Some(brochure) => string_at(brochure.fields@, 0),
                None => None,
            },
            None => None,
        },
        None => None,
    }
}

/// A Daft listing's SEO path, or else the URL of its first brochure.
pub open spec fn daft_seo_url(l: Seq<Value>) -> Option<Seq<char>> {
    match string_at(l, DAFT_SEO_PATH as int) {
        Some(path) => Some(path),
        None => daft_brochure_url(l),
    }
}

/// The rating in a Daft listing's BER group, where it is not empty.
pub open spec fn daft_ber_rating(l: Seq<Value>) -> Option<Seq<char>> {
    match group_at(l, DAFT_BER as int) {
        Some(g) => non_empty(string_at(g.fields@, DAFT_BER_RATING as int)),
        None => None,
    }
}

/// The attributes of a Daft listing group with identifier `id` and amount `m`.
pub open spec fn daft_attributes(l: Seq<Value>, id: Seq<char>, m: u64, ingested_at: Seq<char>) -> AttributesView {
    AttributesView {
        source: Source::Daft,
        source_id: id,
        address: text_or(string_at(l, DAFT_TITLE as int), "Address not available"@),
        property_type: text_or(string_at(l, DAFT_PROPERTY_TYPE as int), seq![]),
        bedrooms: None,
        bathrooms: None,
        size_bits: None,
        ber_rating: daft_ber_rating(l),
        amount: m,
        created_date: ingested_at,
        updated_date: ingested_at,
        active: true,
        photos: seq![],
        has_video: false,
        agent: None,
        seo_url: daft_seo_url(l),
    }
}

/// The property a raw Daft record gives: its first column must be the listing
/// group, holding a price text that yields an amount and an identifier that
/// is not blank.
pub open spec fn daft_record_view(fs: Seq<Value>, ingested_at: Seq<char>) -> Option<PropertyView> {
    match group_at(fs, DAFT_LISTING as int) {
        Some(listing) => {
            let l = listing.fields@;
            match string_at(l, DAFT_PRICE as int) {
                Some(price) => match price_text_micros(price) {
                    Some(m) => match string_at(l, DAFT_ID as int) {
                        Some(id) => if trimmed(id).len() > 0 {
                            Some(canonical(daft_attributes(l, id, m, ingested_at)))
                        } else {
                            None
                        },
                        None => None,
                    },
                    None => None,
                },
                None => None,
            }
        },
        None => None,
    }
}

fn read_daft_seo_url(l: &Vec<Value>) -> (r: Option<String>)
    ensures
        text_view(r) == daft_seo_url(l@),
{
    if let Some(path) = get_string(l, DAFT_SEO_PATH) {
        return Some(path);
    }
    let media = match get_group(l, DAFT_MEDIA) {
        Some(g) => g,
        None => return None,
    };
    let brochures = match get_group(&media.fields, 0) {
        Some(g) => g,
        None => return None,
    };
    let brochure = match get_group(&brochures.fields, 0) {
        Some(g) => g,
        None => return None,
    };
    get_string(&brochure.fields, 0)
}

fn read_daft_ber_rating(l: &Vec<Value>) -> (r: Option<String>)
    ensures
        text_view(r) == daft_ber_rating(l@),
{
    match get_group(l, DAFT_BER) {
        Some(g) => keep_non_empty(get_string(&g.fields, DAFT_BER_RATING)),
        None => None,
    }
}

fn read_daft_attributes(l: &Vec<Value>, id: String, amount: Amount, ingested_at: &str) -> (r:
    Attributes)
    ensures
        r@ == daft_attributes(l@, id@, amount.micros, ingested_at@),
{
    proof {
        reveal_strlit("");
        assert(""@ =~= Seq::<char>::empty());
    }
    let address = text_or_default(get_string(l, DAFT_TITLE), "Address not available");
    let property_type = text_or_default(get_string(l, DAFT_PROPERTY_TYPE), "");
    let ber_rating = read_daft_ber_rating(l);
    let seo_url = read_daft_seo_url(l);
    let r = Attributes {
        source: Source::Daft,
        source_id: id,
        address,
        property_type,
        bedrooms: None,
        bathrooms: None,
        size_bits: None,
        ber_rating,
        amount,
        created_date: ingested_at.to_owned(),
        updated_date: ingested_at.to_owned(),
        active: true,
        photos: Vec::new(),
        has_video: false,
        agent: None,
        seo_url,
    };
    assert(r@.photos =~= Seq::<PhotoView>::empty());
    r
}

/// Parses a raw Daft record, whose fields sit in one listing group.
pub fn parse_daft_row(row: &Record, ingested_at: &str) -> (r: Option<StandardizedProperty>)
    ensures
        opt_view(r) == daft_record_view(row.fields@, ingested_at@),
{
    let listing = match get_group(&row.fields, DAFT_LISTING) {
        Some(g) => g,
        None => return None,
    };
    let l = &listing.fields;
    let price_text = match get_string(l, DAFT_PRICE) {
        Some(t) => t,
        None => return None,
    };
    let amount = match parse_price_string(price_text.as_str()) {
        Some(a) => a,
        None => return None,
    };
    let id = match get_string(l, DAFT_ID) {
        Some(id) => id,
        None => return None,
    };
    if trim_text(id.as_str()).unicode_len() == 0 {
        return None;
    }
    Some(build_property(read_daft_attributes(l, id, amount, ingested_at)))
}


/// A MyHome record with a primary photo yields that photo first, marked main,
/// and no other photo with its URL, also where its photo list repeats it.
pub proof fn lemma_myhome_primary_photo_once(fs: Seq<Value>, ingested_at: Seq<char>, main_url: Seq<char>)
    requires
        myhome_record_view(fs, ingested_at) is Some,
        string_at(fs, MYHOME_MAIN_PHOTO as int) == Some(main_url),
    ensures
        ({
            let ps = myhome_record_view(fs, ingested_at)->0.photos;
            &&& ps.len() >= 1
            &&& ps[0] == PhotoView { url: main_url, is_main: true }
            &&& forall|k: int| 0 < k < ps.len() ==> (#[trigger] ps[k]).url != main_url
            &&& forall|k: int| 0 < k < ps.len() ==> !(#[trigger] ps[k]).is_main
        }),
{
    lemma_primary_photo_once(main_url, list_at(fs, MYHOME_PHOTOS as int));
}


proof fn lemma_listing_photos_well_formed(main: Option<Seq<char>>, listed: Option<Seq<Value>>)
    ensures
        urls_distinct(listing_photos(main, listed)),
        main_first_only(listing_photos(main, listed)),
{
    let start = match main {
        Some(url) => seq![PhotoView { url, is_main: true }],
        None => seq![],
    };
    let items = match listed {
        Some(l) => l,
        None => seq![],
    };
    lemma_listed_photos_extend(start, items);
    assert(with_listed_photos(start, seq![]) == start);
}

/// Every property that a MyHome, Daft or property.ie record gives is well formed.
pub proof fn lemma_parsed_well_formed(fs: Seq<Value>, ingested_at: Seq<char>)
    ensures
        myhome_record_view(fs, ingested_at) matches Some(p) ==> is_well_formed(p),
        daft_record_view(fs, ingested_at) matches Some(p) ==> is_well_formed(p),
        property_ie_record_view(fs, ingested_at) matches Some(p) ==> is_well_formed(p),
{
    lemma_listing_photos_well_formed(
        string_at(fs, MYHOME_MAIN_PHOTO as int),
        list_at(fs, MYHOME_PHOTOS as int),
    );
}

} // verus!

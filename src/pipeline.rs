//! The normalisation pass: per source, parse each raw record, keep those with a
//! plausible price that meet the search criteria, in source-then-record order.
use vstd::prelude::*;
use crate::filter::{matches_criteria, should_include_property, CriteriaView, SearchParams};
use crate::model::{is_well_formed, text_view, PropertyView, Source, StandardizedProperty};
use crate::price::{price_in_range, validate_price};
use crate::record::{Record, Value};
use crate::sources::{
    daft_record_view, lemma_parsed_well_formed, myhome_record_view, opt_view, parse_daft_row, parse_myhome_row,
    parse_property_ie_row, property_ie_record_view,
};

verus! {

/// The property that a raw record of `source` gives, if any.
pub open spec fn record_view(source: Source, fs: Seq<Value>, ingested_at: Seq<char>) -> Option<
    PropertyView,
> {
    match source {
        Source::Daft => daft_record_view(fs, ingested_at),
        Source::MyHome => myhome_record_view(fs, ingested_at),
        Source::PropertyIe => property_ie_record_view(fs, ingested_at),
    }
}

/// Parses a raw record with the parser of its source.
pub fn parse_record(source: Source, row: &Record, ingested_at: &str) -> (r: Option<
    StandardizedProperty,
>)
    ensures
        opt_view(r) == record_view(source, row.fields@, ingested_at@),
        r matches Some(p) ==> is_well_formed(p@),
{
    proof {
        lemma_parsed_well_formed(row.fields@, ingested_at@);
    }
    match source {
        Source::Daft => parse_daft_row(row, ingested_at),
        Source::MyHome => parse_myhome_row(row, ingested_at),
        Source::PropertyIe => parse_property_ie_row(row, ingested_at),
    }
}

/// The property that a raw record contributes to a search: it parses, its
/// price is plausible, and it meets the criteria.
pub open spec fn accepted_view(
    source: Source,
    row: Record,
    c: CriteriaView,
    ingested_at: Seq<char>,
) -> Option<PropertyView> {
    match record_view(source, row.fields@, ingested_at) {
        Some(p) => if price_in_range(p.price.amount) && matches_criteria(p, c) {
            Some(p)
        } else {
            None
        },
        None => None,
    }
}

/// Parses, validates and filters one raw record.
pub fn accept_record(source: Source, row: &Record, params: &SearchParams, ingested_at: &str) -> (r:
    Option<StandardizedProperty>)
    ensures
        opt_view(r) == accepted_view(source, *row, params@, ingested_at@),
{
    match parse_record(source, row, ingested_at) {
        Some(p) => {
            if validate_price(p.price.amount) && should_include_property(&p, params) {
                Some(p)
            } else {
                None
            }
        },
        None => None,
    }
}

/// The properties that the records of one source contribute, in record order.
pub open spec fn records_output(
    source: Source,
    rows: Seq<Record>,
    c: CriteriaView,
    ingested_at: Seq<char>,
) -> Seq<PropertyView>
    decreases rows.len(),
{
    if rows.len() == 0 {
        seq![]
    } else {
        let before = records_output(source, rows.drop_last(), c, ingested_at);
        match accepted_view(source, rows.last(), c, ingested_at) {
            Some(p) => before.push(p),
            None => before,
        }
    }
}

/// The records read for one source: `None` where no snapshot was found.
pub struct SourceBatch {
    pub source: Source,
    pub snapshot: Option<Vec<Record>>,
}

/// What one batch contributes: nothing where its snapshot is missing.
pub open spec fn batch_output(b: SourceBatch, c: CriteriaView, ingested_at: Seq<char>) -> Seq<
    PropertyView,
> {
    match b.snapshot {
        Some(rows) => records_output(b.source, rows@, c, ingested_at),
        None => seq![],
    }
}

/// The result of a search over batches: each batch's contribution, in batch order.
pub open spec fn search_output(bs: Seq<SourceBatch>, c: CriteriaView, ingested_at: Seq<char>) -> Seq<
    PropertyView,
>
    decreases bs.len(),
{
    if bs.len() == 0 {
        seq![]
    } else {
        search_output(bs.drop_last(), c, ingested_at) + batch_output(bs.last(), c, ingested_at)
    }
}

pub open spec fn views(ps: Seq<StandardizedProperty>) -> Seq<PropertyView> {
    ps.map_values(|p: StandardizedProperty| p@)
}

/// Every property in a search result has a plausible price and meets the criteria.
pub open spec fn all_admitted(ps: Seq<PropertyView>, c: CriteriaView) -> bool {
    forall|k: int|
        0 <= k < ps.len() ==> price_in_range((#[trigger] ps[k]).price.amount) && matches_criteria(
            ps[k],
            c,
        )
}

proof fn lemma_records_output_admitted(
    source: Source,
    rows: Seq<Record>,
    c: CriteriaView,
    ingested_at: Seq<char>,
)
    ensures
        all_admitted(records_output(source, rows, c, ingested_at), c),
    decreases rows.len(),
{
    if rows.len() > 0 {
        lemma_records_output_admitted(source, rows.drop_last(), c, ingested_at);
    }
}

/// Whatever the records, a search yields only properties whose price lies
/// strictly between zero and the ceiling and that meet every criterion.
pub proof fn lemma_search_output_admitted(bs: Seq<SourceBatch>, c: CriteriaView, ingested_at: Seq<char>)
    ensures
        all_admitted(search_output(bs, c, ingested_at), c),
    decreases bs.len(),
{
    if bs.len() > 0 {
        lemma_search_output_admitted(bs.drop_last(), c, ingested_at);
        let last = bs.last();
        if let Some(rows) = last.snapshot {
            lemma_records_output_admitted(last.source, rows@, c, ingested_at);
        }
        let a = search_output(bs.drop_last(), c, ingested_at);
        let b = batch_output(last, c, ingested_at);
        assert forall|k: int| 0 <= k < (a + b).len() implies price_in_range(
            (#[trigger] (a + b)[k]).price.amount,
        ) && matches_criteria((a + b)[k], c) by {
            if k >= a.len() {
                assert((a + b)[k] == b[k - a.len()]);
            }
        }
    }
}

/// Normalises the records of every batch, keeping the properties with a
/// plausible price that meet the criteria, in batch-then-record order.
pub fn normalize_batches(batches: &Vec<SourceBatch>, params: &SearchParams, ingested_at: &str) -> (r:
    Vec<StandardizedProperty>)
    ensures
        views(r@) == search_output(batches@, params@, ingested_at@),
        all_admitted(views(r@), params@),
{
    proof {
        lemma_search_output_admitted(batches@, params@, ingested_at@);
    }
    let mut out: Vec<StandardizedProperty> = Vec::new();
    let mut b: usize = 0;
    while b < batches.len()
        invariant
            b <= batches.len(),
            views(out@) == search_output(batches@.take(b as int), params@, ingested_at@),
        decreases batches.len() - b,
    {
        proof {
            assert(batches@.take(b + 1).drop_last() =~= batches@.take(b as int));
        }
        let ghost start = views(out@);
        let batch = &batches[b];
        if let Some(rows) = &batch.snapshot {
            let mut i: usize = 0;
            while i < rows.len()
                invariant
                    i <= rows.len(),
                    views(out@) == start + records_output(
                        batch.source,
                        rows@.take(i as int),
                        params@,
                        ingested_at@,
                    ),
                decreases rows.len() - i,
            {
                proof {
                    assert(rows@.take(i + 1).drop_last() =~= rows@.take(i as int));
                }
                let ghost before = views(out@);
                match accept_record(batch.source, &rows[i], params, ingested_at) {
                    Some(p) => {
                        out.push(p);
                        assert(views(out@) =~= before.push(p@));
                    },
                    None => {},
                }
                i = i + 1;
            }
            assert(rows@.take(rows.len() as int) =~= rows@);
        } else {
            assert(start + batch_output(*batch, params@, ingested_at@) =~= start);
        }
        b = b + 1;
    }
    assert(batches@.take(batches.len() as int) =~= batches@);
    out
}

/// The RFC 3339 text of an instant given in seconds and nanoseconds since the
/// Unix epoch, in UTC, or `None` where chrono cannot represent it.
pub uninterp spec fn utc_rfc3339(secs: i64, nanos: u32) -> Option<Seq<char>>;

/// Relies on chrono's `DateTime::from_timestamp`, which returns `None` for an
/// instant out of its range, and `DateTime::to_rfc3339`, which renders the rest.
#[verifier::external_body]
fn rfc3339_at(secs: i64, nanos: u32) -> (r: Option<String>)
    ensures
        text_view(r) == utc_rfc3339(secs, nanos),
{
    chrono::DateTime::from_timestamp(secs, nanos).map(|t| t.to_rfc3339())
}

/// Normalises the batches with the given instant, in seconds and nanoseconds
/// since the Unix epoch, as the ingestion time; `None` where that instant
/// has no RFC 3339 text.
pub fn search(batches: &Vec<SourceBatch>, params: &SearchParams, secs: i64, nanos: u32) -> (r:
    Option<Vec<StandardizedProperty>>)
    ensures
        match utc_rfc3339(secs, nanos) {
            Some(stamp) => r matches Some(v) && views(v@) == search_output(
                batches@,
                params@,
                stamp,
            ),
            None => r is None,
        },
{
    match rfc3339_at(secs, nanos) {
        Some(stamp) => Some(normalize_batches(batches, params, stamp.as_str())),
        None => None,
    }
}

/// A source whose snapshot is missing contributes nothing: the search gives
/// exactly what it gives without that source, and no error.
pub proof fn lemma_missing_snapshot_skipped(
    bs: Seq<SourceBatch>,
    i: int,
    c: CriteriaView,
    ingested_at: Seq<char>,
)
    requires
        0 <= i < bs.len(),
        bs[i].snapshot is None,
    ensures
        search_output(bs, c, ingested_at) == search_output(bs.remove(i), c, ingested_at),
    decreases bs.len(),
{
    if i == bs.len() - 1 {
        assert(bs.remove(i) =~= bs.drop_last());
        assert(search_output(bs.drop_last(), c, ingested_at) + seq![] =~= search_output(
            bs.drop_last(),
            c,
            ingested_at,
        ));
    } else {
        lemma_missing_snapshot_skipped(bs.drop_last(), i, c, ingested_at);
        assert(bs.remove(i).drop_last() =~= bs.drop_last().remove(i));
        assert(bs.remove(i).last() == bs.last());
    }
}

/// Parsing is a function of the record and the ingestion time: two parses of
/// one raw record agree in every field.
pub proof fn lemma_parse_repeatable(
    source: Source,
    row: Record,
    ingested_at: Seq<char>,
    first: Option<StandardizedProperty>,
    second: Option<StandardizedProperty>,
)
    requires
        opt_view(first) == record_view(source, row.fields@, ingested_at),
        opt_view(second) == record_view(source, row.fields@, ingested_at),
    ensures
        opt_view(first) == opt_view(second),
        first matches Some(p) ==> p@.property_id == crate::model::property_id_of(
            source,
            p@.source_id,
        ),
{
}

} // verus!

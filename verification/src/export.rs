//! The flat export of a batch of products: one record of five fields for each
//! product, ready for a writer of delimited files.

use vstd::prelude::*;
use crate::listing::{infos_view, ProductInfo, ProductInfoView};
use crate::text::views_of;

verus! {

/// The record of a product: name, price text, currency, image address and
/// canonical link.
pub open spec fn record_of(info: ProductInfoView) -> Seq<Seq<char>> {
    seq![info.name, info.price.text, info.price.currency, info.img, info.details_link]
}

/// The records of a batch: one for each product, in the order of the batch.
pub open spec fn records_of(infos: Seq<ProductInfoView>) -> Seq<Seq<Seq<char>>> {
    Seq::new(infos.len(), |i: int| record_of(infos[i]))
}

/// The fields of each record of a list.
pub open spec fn records_view(records: Seq<Vec<String>>) -> Seq<Seq<Seq<char>>> {
    Seq::new(records.len(), |i: int| views_of(records[i]@))
}

/// The record of a product.
pub fn csv_record(info: &ProductInfo) -> (record: Vec<String>)
    ensures
        views_of(record@) == record_of(info@),
{
    let mut record: Vec<String> = Vec::new();
    record.push(info.name.clone());
    record.push(info.price.text.clone());
    record.push(info.price.currency.clone());
    record.push(info.img.clone());
    record.push(info.details_link.clone());
    assert(views_of(record@) =~= record_of(info@));
    record
}

/// The records of a batch, one for each product, in the order of the batch.
pub fn to_csv(infos: &[ProductInfo]) -> (records: Vec<Vec<String>>)
    ensures
        records_view(records@) == records_of(infos_view(infos@)),
{
    let mut records: Vec<Vec<String>> = Vec::new();
    let mut i: usize = 0;
    while i < infos.len()
        invariant
            i <= infos.len(),
            records_view(records@) == records_of(infos_view(infos@)).take(i as int),
        decreases infos.len() - i,
    {
        let ghost before = records_view(records@);
        let record = csv_record(&infos[i]);
        records.push(record);
        proof {
            assert(records_view(records@) =~= before.push(record_of(infos@[i as int]@)));
            assert(records_view(records@) =~= records_of(infos_view(infos@)).take(i + 1));
        }
        i += 1;
    }
    proof {
        assert(records_of(infos_view(infos@)).take(i as int) =~= records_of(infos_view(infos@)));
    }
    records
}

} // verus!

//! Importing the product groups: which group (and group name) each product
//! belongs to.
use vstd::prelude::*;
use vstd::string::*;
use crate::apicalls::endpoint::{endpoint, api_host, Endpoint};

verus! {

/// The `/api/v1/ProductGroups` reply.
pub struct Root {
    pub lst_product_groups: Vec<LstProductGroup>,
}

/// A product group: its id, its name and the ids of its products.
pub struct LstProductGroup {
    pub id: i64,
    pub name: String,
    pub lst_product_ids: Vec<i64>,
}

/// The record stored for a product: the product and its group.
pub struct Product {
    pub product_id: i64,
    pub productgr_id: i64,
    pub productgr_name: String,
}

/// A product record as plain values: product id, group id, group name.
pub open spec fn product_view(p: Product) -> (i64, i64, Seq<char>) {
    (p.product_id, p.productgr_id, p.productgr_name@)
}

/// The records for the groups `groups`: group by group, in order, one per
/// product id of the group, in the order the group lists them.
pub open spec fn product_records(groups: Seq<LstProductGroup>) -> Seq<(i64, i64, Seq<char>)>
    decreases groups.len(),
{
    if groups.len() == 0 {
        Seq::empty()
    } else {
        let g = groups.last();
        product_records(groups.drop_last()) + g.lst_product_ids@.map_values(
            |id: i64| (id, g.id, g.name@),
        )
    }
}

/// The number of product ids that the groups list, all groups together.
pub open spec fn product_count(groups: Seq<LstProductGroup>) -> nat
    decreases groups.len(),
{
    if groups.len() == 0 {
        0
    } else {
        product_count(groups.drop_last()) + groups.last().lst_product_ids@.len()
    }
}

/// The group and the place in it of the product of record `k`: the record
/// holds that product, the group's id and the group's name.
proof fn lemma_record_source(groups: Seq<LstProductGroup>, k: int) -> (ij: (int, int))
    requires
        0 <= k < product_records(groups).len(),
    ensures
        0 <= ij.0 < groups.len(),
        0 <= ij.1 < groups[ij.0].lst_product_ids@.len(),
        product_records(groups)[k] == (
            groups[ij.0].lst_product_ids@[ij.1],
            groups[ij.0].id,
            groups[ij.0].name@,
        ),
    decreases groups.len(),
{
    let init = groups.drop_last();
    let g = groups.last();
    let tail = g.lst_product_ids@.map_values(|id: i64| (id, g.id, g.name@));
    assert(product_records(groups) == product_records(init) + tail);
    let alen = product_records(init).len();
    if k < alen {
        let ij = lemma_record_source(init, k);
        assert(groups[ij.0] == init[ij.0]);
        ij
    } else {
        assert(product_records(groups)[k] == tail[k - alen]);
        ((groups.len() - 1) as int, k - alen)
    }
}

/// The record of product `j` of group `i`.
proof fn lemma_record_of(groups: Seq<LstProductGroup>, i: int, j: int) -> (k: int)
    requires
        0 <= i < groups.len(),
        0 <= j < groups[i].lst_product_ids@.len(),
    ensures
        0 <= k < product_records(groups).len(),
        product_records(groups)[k] == (
            groups[i].lst_product_ids@[j],
            groups[i].id,
            groups[i].name@,
        ),
    decreases groups.len(),
{
    let init = groups.drop_last();
    let g = groups.last();
    let tail = g.lst_product_ids@.map_values(|id: i64| (id, g.id, g.name@));
    assert(product_records(groups) == product_records(init) + tail);
    let alen = product_records(init).len();
    if i < groups.len() - 1 {
        assert(groups[i] == init[i]);
        let k = lemma_record_of(init, i, j);
        assert(product_records(groups)[k] == product_records(init)[k]);
        k
    } else {
        assert(product_records(groups)[alen + j] == tail[j]);
        alen + j
    }
}

/// Whether `rec` is the record of product `j` of group `g`: that product id,
/// the group's id and the group's name.
pub open spec fn is_record_of(rec: (i64, i64, Seq<char>), g: LstProductGroup, j: int) -> bool {
    &&& 0 <= j < g.lst_product_ids@.len()
    &&& rec.0 == g.lst_product_ids@[j]
    &&& rec.1 == g.id
    &&& rec.2 == g.name@
}

/// Whether some group of `groups` lists the product of `rec`, with its own
/// id and name in `rec`.
pub open spec fn from_some_group(rec: (i64, i64, Seq<char>), groups: Seq<LstProductGroup>) -> bool {
    exists|i: int, j: int| 0 <= i < groups.len() && #[trigger] is_record_of(rec, groups[i], j)
}

/// Whether some record of `recs` is the record of product `j` of group `g`.
pub open spec fn has_record(recs: Seq<(i64, i64, Seq<char>)>, g: LstProductGroup, j: int) -> bool {
    exists|k: int| 0 <= k < recs.len() && #[trigger] is_record_of(recs[k], g, j)
}

/// Every record pairs a product with a group that lists it: its group id
/// and name are that group's. Every product that a group lists has such a
/// record, and there are as many records as listed product ids.
pub proof fn lemma_product_records_pair_products_with_groups(groups: Seq<LstProductGroup>)
    ensures
        forall|k: int|
            0 <= k < product_records(groups).len() ==> from_some_group(
                #[trigger] product_records(groups)[k],
                groups,
            ),
        forall|i: int, j: int|
            0 <= i < groups.len() && 0 <= j < groups[i].lst_product_ids@.len() ==> #[trigger] has_record(
                product_records(groups),
                groups[i],
                j,
            ),
        product_records(groups).len() == product_count(groups),
{
    assert forall|k: int| 0 <= k < product_records(groups).len() implies from_some_group(
        #[trigger] product_records(groups)[k],
        groups,
    ) by {
        let ij = lemma_record_source(groups, k);
        assert(is_record_of(product_records(groups)[k], groups[ij.0], ij.1));
    }
    assert forall|i: int, j: int|
        0 <= i < groups.len() && 0 <= j < groups[i].lst_product_ids@.len() implies #[trigger] has_record(
            product_records(groups),
            groups[i],
            j,
        ) by {
        let k = lemma_record_of(groups, i, j);
        assert(is_record_of(product_records(groups)[k], groups[i], j));
    }
    lemma_product_count(groups);
}

proof fn lemma_product_count(groups: Seq<LstProductGroup>)
    ensures
        product_records(groups).len() == product_count(groups),
    decreases groups.len(),
{
    if groups.len() > 0 {
        lemma_product_count(groups.drop_last());
    }
}

/// The product groups endpoint.
pub fn product_groups_endpoint() -> (e: Endpoint)
    ensures
        e.path@ == "/api/v1/ProductGroups"@,
        e.url@ == api_host() + "/api/v1/ProductGroups"@,
{
    proof {
        reveal_strlit("");
    }
    let e = endpoint("/api/v1/ProductGroups", "");
    assert(e.url@ =~= api_host() + "/api/v1/ProductGroups"@);
    e
}

/// The product records of a reply, in the order they are stored.
pub fn product_rows(root: &Root) -> (rows: Vec<Product>)
    ensures
        rows@.map_values(|p: Product| product_view(p)) == product_records(
            root.lst_product_groups@,
        ),
        forall|k: int|
            0 <= k < rows@.len() ==> from_some_group(
                product_view(#[trigger] rows@[k]),
                root.lst_product_groups@,
            ),
        forall|i: int, j: int|
            #![trigger root.lst_product_groups@[i].lst_product_ids@[j]]
            0 <= i < root.lst_product_groups@.len() && 0 <= j
                < root.lst_product_groups@[i].lst_product_ids@.len() ==> has_record(
                rows@.map_values(|p: Product| product_view(p)),
                root.lst_product_groups@[i],
                j,
            ),
        rows@.len() == product_count(root.lst_product_groups@),
{
    let groups = &root.lst_product_groups;
    let mut rows: Vec<Product> = Vec::new();
    let mut i: usize = 0;
    while i < groups.len()
        invariant
            i <= groups@.len(),
            rows@.map_values(|p: Product| product_view(p)) == product_records(
                groups@.take(i as int),
            ),
        decreases groups.len() - i,
    {
        let group = &groups[i];
        let ghost before = rows@.map_values(|p: Product| product_view(p));
        let mut j: usize = 0;
        while j < group.lst_product_ids.len()
            invariant
                j <= group.lst_product_ids@.len(),
                rows@.map_values(|p: Product| product_view(p)) == before
                    + group.lst_product_ids@.take(j as int).map_values(
                    |id: i64| (id, group.id, group.name@),
                ),
            decreases group.lst_product_ids.len() - j,
        {
            let ghost prev = rows@;
            rows.push(
                Product {
                    product_id: group.lst_product_ids[j],
                    productgr_id: group.id,
                    productgr_name: group.name.clone(),
                },
            );
            let ghost last = rows@[rows@.len() - 1];
            assert(product_view(last) == (group.lst_product_ids@[j as int], group.id, group.name@));
            assert(rows@.map_values(|p: Product| product_view(p)) =~= prev.map_values(
                |p: Product| product_view(p),
            ).push(product_view(last)));
            j = j + 1;
            assert(group.lst_product_ids@.take(j as int).map_values(
                |id: i64| (id, group.id, group.name@),
            ) =~= group.lst_product_ids@.take(j - 1).map_values(
                |id: i64| (id, group.id, group.name@),
            ).push((group.lst_product_ids@[j - 1], group.id, group.name@)));
            assert(rows@.map_values(|p: Product| product_view(p)) =~= before
                + group.lst_product_ids@.take(j as int).map_values(
                |id: i64| (id, group.id, group.name@),
            ));
        }
        assert(group.lst_product_ids@.take(j as int) =~= group.lst_product_ids@);
        assert(groups@.take(i + 1).drop_last() =~= groups@.take(i as int));
        i = i + 1;
    }
    assert(groups@.take(i as int) =~= groups@);
    proof {
        let gs = groups@;
        let viewed = rows@.map_values(|p: Product| product_view(p));
        lemma_product_records_pair_products_with_groups(gs);
        assert forall|k: int| 0 <= k < rows@.len() implies from_some_group(
            product_view(#[trigger] rows@[k]),
            gs,
        ) by {
            assert(viewed[k] == product_view(rows@[k]));
            assert(from_some_group(product_records(gs)[k], gs));
        }
        assert forall|i: int, j: int|
            #![trigger gs[i].lst_product_ids@[j]]
            0 <= i < gs.len() && 0 <= j < gs[i].lst_product_ids@.len() implies has_record(
                viewed,
                gs[i],
                j,
            ) by {
            assert(has_record(product_records(gs), gs[i], j));
        }
    }
    rows
}

} // verus!

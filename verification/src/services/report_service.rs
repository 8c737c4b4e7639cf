use vstd::prelude::*;

use crate::clock::now_rfc3339;
use crate::models::report::{CreateReportRequest, ReportModel, UpdateReportRequest};
use crate::store::Store;

verus! {

/// The first report record at or after position `k` whose id is `report_id`,
/// if any.
pub open spec fn find_report_from(
    reports: Seq<ReportModel>,
    report_id: i64,
    k: int,
) -> Option<ReportModel>
    decreases reports.len() - k,
{
    if k < 0 || k >= reports.len() {
        None
    } else if reports[k].id == report_id {
        Some(reports[k])
    } else {
        find_report_from(reports, report_id, k + 1)
    }
}

/// The report record with id `report_id`, if any. Under `Store::wf` ids are
/// unique, so this is the record.
pub open spec fn find_report(reports: Seq<ReportModel>, report_id: i64) -> Option<ReportModel> {
    find_report_from(reports, report_id, 0)
}

/// A record is found from position `k` exactly when some position at or
/// after `k` carries the id.
pub proof fn lemma_find_report_from_characterizes(
    reports: Seq<ReportModel>,
    report_id: i64,
    k: int,
)
    requires
        0 <= k <= reports.len(),
    ensures
        (find_report_from(reports, report_id, k) is Some) <==> (exists|i: int|
            k <= i < reports.len() && reports[i].id == report_id),
    decreases reports.len() - k,
{
    if k < reports.len() && reports[k].id != report_id {
        lemma_find_report_from_characterizes(reports, report_id, k + 1);
    }
}

/// Strictly increasing ids leave no room for two records with the same id.
pub proof fn lemma_report_ids_unique(reports: Seq<ReportModel>)
    requires
        forall|i: int, j: int|
            0 <= i < j < reports.len() ==> (#[trigger] reports[i]).id < (#[trigger] reports[j]).id,
    ensures
        forall|i: int, j: int|
            0 <= i < reports.len() && 0 <= j < reports.len() && i != j ==> (
            #[trigger] reports[i]).id != (#[trigger] reports[j]).id,
{
}

/// The position of the first report record carrying `report_id`, if any.
pub fn find_report_index(reports: &Vec<ReportModel>, report_id: i64) -> (r: Option<usize>)
    ensures
        match r {
            Some(i) => i < reports@.len() && reports@[i as int].id == report_id && find_report(
                reports@,
                report_id,
            ) == Some(reports@[i as int]),
            None => find_report(reports@, report_id) is None,
        },
{
    let mut i: usize = 0;
    while i < reports.len()
        invariant
            i <= reports@.len(),
            find_report_from(reports@, report_id, 0) == find_report_from(
                reports@,
                report_id,
                i as int,
            ),
        decreases reports@.len() - i,
    {
        if reports[i].id == report_id {
            return Some(i);
        }
        i += 1;
    }
    None
}

impl Store {
    /// Every report record, newest first (descending id).
    pub fn report_service_get_all(&self) -> (r: Vec<ReportModel>)
        requires
            self.wf(),
        ensures
            r@ == self.reports@.reverse(),
            forall|a: int, b: int|
                0 <= a < b < r@.len() ==> (#[trigger] r@[a]).id > (#[trigger] r@[b]).id,
    {
        let mut out: Vec<ReportModel> = Vec::new();
        let mut i: usize = self.reports.len();
        while i > 0
            invariant
                i <= self.reports@.len(),
                out@.len() == self.reports@.len() - i,
                forall|k: int|
                    0 <= k < out@.len() ==> out@[k] == self.reports@[self.reports@.len() - 1 - k],
            decreases i,
        {
            i -= 1;
            out.push(self.reports[i].clone());
        }
        proof {
            assert(out@ =~= self.reports@.reverse());
        }
        out
    }

    /// The report record named by `id`; an absent id is a valid `None`
    /// result, not a failure.
    pub fn report_service_get_one(&self, id: i64) -> (r: Option<ReportModel>)
        ensures
            r == find_report(self.reports@, id),
    {
        match find_report_index(&self.reports, id) {
            Some(i) => Some(self.reports[i].clone()),
            None => None,
        }
    }

    /// Append a report record with the given creation timestamp; the record
    /// gets the next report id.
    pub fn create_report_at(&mut self, req: CreateReportRequest, created_at: String) -> (id: i64)
        requires
            old(self).wf(),
            old(self).next_report_id < i64::MAX,
        ensures
            final(self).wf(),
            id == old(self).next_report_id,
            final(self).reports@ == old(self).reports@.push(
                (ReportModel {
                    id: old(self).next_report_id,
                    name: req.name,
                    category: req.category,
                    created_at: created_at,
                    description: req.description,
                }),
            ),
            final(self).next_report_id == old(self).next_report_id + 1,
            final(self).products@ == old(self).products@,
            final(self).sales@ == old(self).sales@,
            final(self).sale_items@ == old(self).sale_items@,
            final(self).next_product_id == old(self).next_product_id,
            final(self).next_sale_id == old(self).next_sale_id,
            final(self).next_sale_item_id == old(self).next_sale_item_id,
    {
        let id = self.next_report_id;
        let row = ReportModel {
            id,
            name: req.name,
            category: req.category,
            created_at,
            description: req.description,
        };
        self.reports.push(row);
        self.next_report_id = id + 1;
        id
    }

    /// Append a report record stamped with the current time.
    pub fn report_service_create(&mut self, req: CreateReportRequest) -> (id: i64)
        requires
            old(self).wf(),
            old(self).next_report_id < i64::MAX,
        ensures
            final(self).wf(),
            id == old(self).next_report_id,
            final(self).reports@.len() == old(self).reports@.len() + 1,
            forall|k: int|
                0 <= k < old(self).reports@.len() ==> final(self).reports@[k] == old(
                    self,
                ).reports@[k],
            final(self).reports@.last().id == id,
            final(self).reports@.last().name == req.name,
            final(self).reports@.last().category == req.category,
            final(self).reports@.last().description == req.description,
            final(self).reports@.last().created_at@.len() > 0,
            final(self).next_report_id == old(self).next_report_id + 1,
            final(self).products@ == old(self).products@,
            final(self).sales@ == old(self).sales@,
            final(self).sale_items@ == old(self).sale_items@,
            final(self).next_product_id == old(self).next_product_id,
            final(self).next_sale_id == old(self).next_sale_id,
            final(self).next_sale_item_id == old(self).next_sale_item_id,
    {
        let created_at = now_rfc3339();
        self.create_report_at(req, created_at)
    }

    /// Overwrite name, category and description of the record named by
    /// `req.id`, keeping its id and creation timestamp; a no-op if the id
    /// is absent.
    pub fn report_service_update(&mut self, req: UpdateReportRequest)
        requires
            old(self).wf(),
        ensures
            final(self).wf(),
            find_report(old(self).reports@, req.id) is None ==> *final(self) == *old(self),
            final(self).reports@.len() == old(self).reports@.len(),
            forall|j: int|
                0 <= j < old(self).reports@.len() ==> final(self).reports@[j] == (if (
                #[trigger] old(self).reports@[j]).id == req.id {
                    (ReportModel {
                        id: old(self).reports@[j].id,
                        name: req.name,
                        category: req.category,
                        created_at: old(self).reports@[j].created_at,
                        description: req.description,
                    })
                } else {
                    old(self).reports@[j]
                }),
            final(self).products@ == old(self).products@,
            final(self).sales@ == old(self).sales@,
            final(self).sale_items@ == old(self).sale_items@,
            final(self).next_product_id == old(self).next_product_id,
            final(self).next_sale_id == old(self).next_sale_id,
            final(self).next_sale_item_id == old(self).next_sale_item_id,
            final(self).next_report_id == old(self).next_report_id,
    {
        proof {
            lemma_report_ids_unique(self.reports@);
            lemma_find_report_from_characterizes(self.reports@, req.id, 0);
        }
        match find_report_index(&self.reports, req.id) {
            Some(idx) => {
                let id = self.reports[idx].id;
                let created_at = self.reports[idx].created_at.clone();
                self.reports[idx] = ReportModel {
                    id,
                    name: req.name,
                    category: req.category,
                    created_at,
                    description: req.description,
                };
            },
            None => {
                proof {
                    lemma_find_report_from_characterizes(self.reports@, req.id, 0);
                }
            },
        }
    }

    /// Remove the record named by `id`; a no-op if the id is absent. No
    /// record with that id remains either way.
    pub fn report_service_delete(&mut self, id: i64)
        requires
            old(self).wf(),
        ensures
            final(self).wf(),
            find_report(old(self).reports@, id) is None ==> *final(self) == *old(self),
            find_report(old(self).reports@, id) is Some ==> exists|idx: int|
                0 <= idx < old(self).reports@.len() && (#[trigger] old(self).reports@[idx]).id
                    == id && final(self).reports@ == old(self).reports@.remove(idx),
            forall|j: int|
                0 <= j < final(self).reports@.len() ==> (#[trigger] final(self).reports@[j]).id
                    != id,
            final(self).products@ == old(self).products@,
            final(self).sales@ == old(self).sales@,
            final(self).sale_items@ == old(self).sale_items@,
            final(self).next_product_id == old(self).next_product_id,
            final(self).next_sale_id == old(self).next_sale_id,
            final(self).next_sale_item_id == old(self).next_sale_item_id,
            final(self).next_report_id == old(self).next_report_id,
    {
        proof {
            lemma_report_ids_unique(self.reports@);
        }
        match find_report_index(&self.reports, id) {
            Some(idx) => {
                proof {
                    self.reports@.remove_ensures(idx as int);
                }
                self.reports.remove(idx);
            },
            None => {
                proof {
                    lemma_find_report_from_characterizes(self.reports@, id, 0);
                }
            },
        }
    }
}

} // verus!

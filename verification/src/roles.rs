//! What the Leader has to do and where a collection job stands.

use crate::codec::views;
use crate::messages::{
    BatchSelector, Collection, CollectionJobId, CollectionView, PartialBatchSelector, Report,
    ReportView, TaskId,
};
use vstd::prelude::*;

verus! {

/// The parameter of an aggregation, as the aggregation function encodes it.
pub type DapAggregationParam = Vec<u8>;

/// Where a collection job stands. A job starts out unknown, is pending
/// once it is asked for and done once its collection is there.
#[derive(Debug, PartialEq, Eq)]
pub enum DapCollectionJob {
    Done(Collection),
    Pending,
    Unknown,
}

/// The model of [`DapCollectionJob`].
pub ghost enum DapCollectionJobView {
    Done(CollectionView),
    Pending,
    Unknown,
}

impl View for DapCollectionJob {
    type V = DapCollectionJobView;

    open spec fn view(&self) -> DapCollectionJobView {
        match self {
            DapCollectionJob::Done(collection) => DapCollectionJobView::Done(collection@),
            DapCollectionJob::Pending => DapCollectionJobView::Pending,
            DapCollectionJob::Unknown => DapCollectionJobView::Unknown,
        }
    }
}

impl Clone for DapCollectionJob {
    fn clone(&self) -> (copy: Self)
        ensures
            copy@ == self@,
    {
        match self {
            DapCollectionJob::Done(collection) => DapCollectionJob::Done(collection.clone()),
            DapCollectionJob::Pending => DapCollectionJob::Pending,
            DapCollectionJob::Unknown => DapCollectionJob::Unknown,
        }
    }
}

/// A piece of work for the Leader: to aggregate reports, or to finish a
/// collection job.
#[derive(Debug, PartialEq, Eq)]
#[allow(inconsistent_fields)]
pub enum WorkItem {
    AggregationJob {
        task_id: TaskId,
        part_batch_sel: PartialBatchSelector,
        agg_param: DapAggregationParam,
        reports: Vec<Report>,
    },
    CollectionJob {
        task_id: TaskId,
        coll_job_id: CollectionJobId,
        batch_sel: BatchSelector,
        agg_param: DapAggregationParam,
    },
}

/// The model of [`WorkItem`].
#[allow(inconsistent_fields)]
pub ghost enum WorkItemView {
    AggregationJob {
        task_id: Seq<u8>,
        part_batch_sel: PartialBatchSelector,
        agg_param: Seq<u8>,
        reports: Seq<ReportView>,
    },
    CollectionJob {
        task_id: Seq<u8>,
        coll_job_id: Seq<u8>,
        batch_sel: BatchSelector,
        agg_param: Seq<u8>,
    },
}

impl View for WorkItem {
    type V = WorkItemView;

    open spec fn view(&self) -> WorkItemView {
        match self {
            WorkItem::AggregationJob {
                task_id,
                part_batch_sel,
                agg_param,
                reports,
            } => WorkItemView::AggregationJob {
                task_id: task_id@,
                part_batch_sel: *part_batch_sel,
                agg_param: agg_param@,
                reports: views(reports@),
            },
            WorkItem::CollectionJob {
                task_id,
                coll_job_id,
                batch_sel,
                agg_param,
            } => WorkItemView::CollectionJob {
                task_id: task_id@,
                coll_job_id: coll_job_id@,
                batch_sel: *batch_sel,
                agg_param: agg_param@,
            },
        }
    }
}

} // verus!

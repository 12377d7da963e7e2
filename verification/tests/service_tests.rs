use ses_mailer::services::receiver::send_interval_millis;
use ses_mailer::services::scheduler::{
    collect_pending_ids, mark_processing_sql, plan_batch, plan_dispatch, BatchPlan, DispatchPlan, PendingRow,
};

fn row(id: Option<i64>, email: &str) -> PendingRow {
    PendingRow {
        id,
        topic_id: "t".to_string(),
        email: email.to_string(),
        subject: "s".to_string(),
        content: "c".to_string(),
    }
}

#[test]
fn interval_follows_rate() {
    assert_eq!(send_interval_millis(24), 41);
    assert_eq!(send_interval_millis(12), 83);
    assert_eq!(send_interval_millis(1), 1000);
    assert_eq!(send_interval_millis(2000), 0);
    assert_eq!(send_interval_millis(-5), 0);
}

#[test]
fn mark_processing_lists_ids() {
    assert_eq!(mark_processing_sql(&vec![3]), "UPDATE email_requests SET status = 1 WHERE status = 0 AND id IN (3) RETURNING id");
    assert_eq!(
        mark_processing_sql(&vec![1, 22, 333]),
        "UPDATE email_requests SET status = 1 WHERE status = 0 AND id IN (1,22,333) RETURNING id"
    );
}

#[test]
fn pending_ids_skip_missing() {
    let rows = vec![row(Some(4), "a"), row(None, "b"), row(Some(9), "c")];
    assert_eq!(collect_pending_ids(&rows), vec![4, 9]);
}

#[test]
fn batch_plans() {
    assert!(matches!(plan_batch(None), BatchPlan::FetchFailed));
    assert!(matches!(plan_batch(Some(vec![])), BatchPlan::Idle));
    match plan_batch(Some(vec![row(None, "a")])) {
        BatchPlan::Dispatch { mark_processing, rows } => {
            assert_eq!(mark_processing, None);
            assert_eq!(rows.len(), 1);
        }
        _ => panic!("rows without ids not dispatched"),
    }
    match plan_batch(Some(vec![row(Some(4), "a"), row(None, "b"), row(Some(6), "c")])) {
        BatchPlan::Dispatch { mark_processing, rows } => {
            assert_eq!(
                mark_processing,
                Some("UPDATE email_requests SET status = 1 WHERE status = 0 AND id IN (4,6) RETURNING id".to_string())
            );
            assert_eq!(rows.len(), 3);
        }
        _ => panic!("rows not marked"),
    }
}

#[test]
fn only_marked_rows_are_sent() {
    let rows = vec![row(Some(4), "a"), row(None, "b"), row(Some(6), "c"), row(Some(8), "d")];
    assert!(matches!(plan_dispatch(&rows, None), DispatchPlan::Retry));
    // row 6 was stopped between the fetch and the marking, so the update did not report it
    match plan_dispatch(&rows, Some(vec![8, 4])) {
        DispatchPlan::Send(requests) => {
            assert_eq!(requests.len(), 3);
            assert_eq!(requests[0].id, Some(4));
            assert_eq!(requests[0].email, "a");
            assert_eq!(requests[1].id, Some(0));
            assert_eq!(requests[1].email, "b");
            assert_eq!(requests[2].id, Some(8));
            assert_eq!(requests[2].email, "d");
            for r in &requests {
                assert_eq!(r.status, 0);
                assert_eq!(r.topic_id, Some("t".to_string()));
                assert_eq!(r.scheduled_at, None);
            }
        }
        _ => panic!("marked rows not sent"),
    }
    match plan_dispatch(&rows, Some(vec![])) {
        DispatchPlan::Send(requests) => {
            assert_eq!(requests.len(), 1);
            assert_eq!(requests[0].email, "b");
        }
        _ => panic!("empty marking is not a failure"),
    }
}

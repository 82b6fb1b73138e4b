use media_pipeline::error::Error;
use media_pipeline::job::{job_id_text, parse_job_id, JobRequest, PipelineJob};
use media_pipeline::pipeline::{Effect, Outcome, PipelineManager};

fn id_text(n: u128) -> String {
    format!("00000000-0000-0000-0000-{:012x}", n)
}

fn req(n: u128) -> JobRequest {
    JobRequest {
        id: id_text(n),
        path: format!("/media/clip{}.mov", n),
        extension: "mp4".to_string(),
        category: "video".to_string(),
    }
}

fn reqs(ns: &[u128]) -> Vec<JobRequest> {
    ns.iter().map(|n| req(*n)).collect()
}

fn started(effects: &[Effect]) -> Vec<u128> {
    effects
        .iter()
        .filter_map(|e| match e {
            Effect::Started(j) => Some(j.id),
            _ => None,
        })
        .collect()
}

fn terminal(effects: &[Effect]) -> Vec<(u128, &'static str)> {
    effects
        .iter()
        .filter_map(|e| match e {
            Effect::Cancelled(i) => Some((*i, "cancelled")),
            Effect::Completed(i) => Some((*i, "completed")),
            Effect::Failed(i, _) => Some((*i, "failed")),
            _ => None,
        })
        .collect()
}

#[test]
fn five_jobs_with_limit_two_start_in_submission_order() {
    let mut p = PipelineManager::new(2);
    let results = p.add_jobs(reqs(&[1, 2, 3, 4, 5]));
    assert_eq!(results.len(), 5);
    for (k, r) in results.iter().enumerate() {
        assert_eq!(r.as_ref().unwrap(), &id_text(k as u128 + 1));
    }
    let fx = p.take_effects();
    let queued: Vec<u128> = fx
        .iter()
        .filter_map(|e| match e {
            Effect::Queued(i) => Some(*i),
            _ => None,
        })
        .collect();
    assert_eq!(queued, vec![1, 2, 3, 4, 5]);
    assert_eq!(started(&fx), vec![1, 2]);
    assert_eq!(p.running_count(), 2);
    assert_eq!(p.queued_count(), 3);

    let mut order = started(&fx);
    for n in 1..=5u128 {
        assert!(p.running_count() <= p.limit());
        assert_eq!(p.finish_job(n, Outcome::Succeeded), Ok(()));
        let fx = p.take_effects();
        assert_eq!(terminal(&fx), vec![(n, "completed")]);
        order.extend(started(&fx));
    }
    assert_eq!(order, vec![1, 2, 3, 4, 5]);
    assert_eq!(p.running_count(), 0);
    assert_eq!(p.queued_count(), 0);
}

#[test]
fn cancelled_queued_job_never_starts() {
    let mut p = PipelineManager::new(1);
    p.add_jobs(reqs(&[1, 2, 3]));
    let fx = p.take_effects();
    assert_eq!(started(&fx), vec![1]);
    assert_eq!(p.cancel_job(id_text(2)), Ok(()));
    let fx = p.take_effects();
    assert_eq!(terminal(&fx), vec![(2, "cancelled")]);
    assert!(started(&fx).is_empty());
    assert!(!p.is_queued(2));
    assert!(p.is_queued(3));
    assert_eq!(p.finish_job(1, Outcome::Succeeded), Ok(()));
    let fx = p.take_effects();
    assert_eq!(terminal(&fx), vec![(1, "completed")]);
    assert_eq!(started(&fx), vec![3]);
    assert_eq!(p.finish_job(3, Outcome::Succeeded), Ok(()));
    let fx = p.take_effects();
    assert!(started(&fx).is_empty());
    assert!(matches!(fx.last(), Some(Effect::AllCompleted)));
}

#[test]
fn cancel_all_stops_queue_and_signals_running() {
    let mut p = PipelineManager::new(2);
    p.add_jobs(reqs(&[1, 2, 3, 4, 5, 6]));
    let fx = p.take_effects();
    assert_eq!(started(&fx), vec![1, 2]);
    p.cancel_all();
    let fx = p.take_effects();
    assert_eq!(fx.len(), 3);
    assert!(matches!(fx[0], Effect::Signal(1)));
    assert!(matches!(fx[1], Effect::Signal(2)));
    match &fx[2] {
        Effect::AllCancelled(ids) => assert_eq!(ids, &vec![3, 4, 5, 6]),
        other => panic!("unexpected effect {:?}", other),
    }
    assert_eq!(p.queued_count(), 0);
    assert_eq!(p.running_count(), 2);
    assert_eq!(p.finish_job(1, Outcome::Succeeded), Ok(()));
    let fx = p.take_effects();
    assert_eq!(terminal(&fx), vec![(1, "cancelled")]);
    assert!(started(&fx).is_empty());
    assert_eq!(p.finish_job(2, Outcome::Failed("killed".to_string())), Ok(()));
    let fx = p.take_effects();
    assert_eq!(terminal(&fx), vec![(2, "cancelled")]);
    assert!(started(&fx).is_empty());
    assert_eq!(p.running_count(), 0);
}

#[test]
fn cancelling_running_job_reports_cancelled_not_completed() {
    let mut p = PipelineManager::new(1);
    p.add_jobs(reqs(&[7]));
    p.take_effects();
    assert_eq!(p.cancel_job(id_text(7)), Ok(()));
    let fx = p.take_effects();
    assert_eq!(fx.len(), 1);
    assert!(matches!(fx[0], Effect::Signal(7)));
    assert!(p.is_running(7));
    // signalling twice is harmless
    assert_eq!(p.cancel_job(id_text(7)), Ok(()));
    p.take_effects();
    assert_eq!(p.finish_job(7, Outcome::Succeeded), Ok(()));
    let fx = p.take_effects();
    assert_eq!(terminal(&fx), vec![(7, "cancelled")]);
}

#[test]
fn raising_limit_starts_waiting_jobs() {
    let mut p = PipelineManager::new(1);
    p.add_jobs(reqs(&[1, 2, 3, 4]));
    p.take_effects();
    assert_eq!(p.running_count(), 1);
    p.set_concurrency(3);
    let fx = p.take_effects();
    assert_eq!(started(&fx), vec![2, 3]);
    assert_eq!(p.running_count(), 3);
    assert_eq!(p.queued_count(), 1);
    assert_eq!(p.limit(), 3);
}

#[test]
fn lowering_limit_waits_for_running_jobs() {
    let mut p = PipelineManager::new(3);
    p.add_jobs(reqs(&[1, 2, 3, 4]));
    p.take_effects();
    p.set_concurrency(1);
    assert!(p.take_effects().is_empty());
    assert_eq!(p.running_count(), 3);
    assert_eq!(p.limit(), 1);
    assert_eq!(p.finish_job(1, Outcome::Succeeded), Ok(()));
    assert!(started(&p.take_effects()).is_empty());
    assert_eq!(p.running_count(), 2);
    assert_eq!(p.finish_job(2, Outcome::Succeeded), Ok(()));
    assert!(started(&p.take_effects()).is_empty());
    assert_eq!(p.running_count(), 1);
    assert_eq!(p.finish_job(3, Outcome::Succeeded), Ok(()));
    assert_eq!(started(&p.take_effects()), vec![4]);
    assert_eq!(p.running_count(), 1);
}

#[test]
fn lowering_then_raising_limit_cancels_owed_permits() {
    let mut p = PipelineManager::new(2);
    p.add_jobs(reqs(&[1, 2, 3, 4]));
    p.take_effects();
    p.set_concurrency(1);
    p.set_concurrency(3);
    let fx = p.take_effects();
    assert_eq!(started(&fx), vec![3]);
    assert_eq!(p.running_count(), 3);
}

#[test]
fn add_job_queues_without_dispatching() {
    let mut p = PipelineManager::new(4);
    assert_eq!(p.add_job(req(9)), Ok(id_text(9)));
    let fx = p.take_effects();
    assert_eq!(fx.len(), 1);
    assert!(matches!(fx[0], Effect::Queued(9)));
    assert_eq!(p.running_count(), 0);
    p.try_dispatch();
    assert_eq!(started(&p.take_effects()), vec![9]);
}

#[test]
fn add_job_rejects_malformed_identity() {
    let mut p = PipelineManager::new(1);
    let mut r = req(1);
    r.id = "not-a-uuid".to_string();
    assert_eq!(p.add_job(r), Err(Error::InvalidIdentity));
    assert_eq!(p.queued_count(), 0);
    assert!(p.take_effects().is_empty());
}

#[test]
fn add_job_rejects_live_identity() {
    let mut p = PipelineManager::new(1);
    assert!(p.add_job(req(1)).is_ok());
    assert_eq!(p.add_job(req(1)), Err(Error::InvalidIdentity));
    p.try_dispatch();
    assert_eq!(p.add_job(req(1)), Err(Error::InvalidIdentity));
    assert_eq!(p.finish_job(1, Outcome::Succeeded), Ok(()));
    assert!(p.add_job(req(1)).is_ok());
}

#[test]
fn add_jobs_reports_each_job() {
    let mut p = PipelineManager::new(0);
    let mut bad = req(2);
    bad.id = "{zzz}".to_string();
    let results = p.add_jobs(vec![req(1), bad, req(1), req(3)]);
    assert_eq!(results[0], Ok(id_text(1)));
    assert_eq!(results[1], Err(Error::InvalidIdentity));
    assert_eq!(results[2], Err(Error::InvalidIdentity));
    assert_eq!(results[3], Ok(id_text(3)));
    assert_eq!(p.queued_count(), 2);
    assert!(started(&p.take_effects()).is_empty());
}

#[test]
fn add_job_returns_canonical_identity() {
    let mut p = PipelineManager::new(1);
    let mut r = req(1);
    r.id = "{936DA01F-9ABD-4D9D-80C7-02AF85C822A8}".to_string();
    assert_eq!(p.add_job(r), Ok("936da01f-9abd-4d9d-80c7-02af85c822a8".to_string()));
}

#[test]
fn cancel_unknown_job_is_not_found() {
    let mut p = PipelineManager::new(1);
    assert_eq!(p.cancel_job(id_text(5)), Err(Error::JobNotFound));
    assert_eq!(p.cancel_job("garbage".to_string()), Err(Error::JobNotFound));
    assert!(p.take_effects().is_empty());
}

#[test]
fn finish_unknown_job_is_not_found() {
    let mut p = PipelineManager::new(1);
    p.add_jobs(reqs(&[1, 2]));
    assert_eq!(p.finish_job(2, Outcome::Succeeded), Err(Error::JobNotFound));
    assert_eq!(p.finish_job(3, Outcome::Succeeded), Err(Error::JobNotFound));
}

#[test]
fn failed_execution_reports_detail() {
    let mut p = PipelineManager::new(1);
    p.add_jobs(reqs(&[1]));
    p.take_effects();
    p.finish_job(1, Outcome::Failed("bad input".to_string())).unwrap();
    let fx = p.take_effects();
    match &fx[0] {
        Effect::Failed(1, d) => assert_eq!(d, "bad input"),
        other => panic!("unexpected effect {:?}", other),
    }
}

#[test]
fn zero_limit_starts_nothing() {
    let mut p = PipelineManager::new(0);
    p.add_jobs(reqs(&[1, 2]));
    let fx = p.take_effects();
    assert!(started(&fx).is_empty());
    assert!(!fx.iter().any(|e| matches!(e, Effect::AllCompleted)));
}

#[test]
fn empty_dispatch_reports_all_completed() {
    let mut p = PipelineManager::new(2);
    p.try_dispatch();
    let fx = p.take_effects();
    assert_eq!(fx.len(), 1);
    assert!(matches!(fx[0], Effect::AllCompleted));
}

#[test]
fn every_job_gets_one_terminal_notice() {
    let mut p = PipelineManager::new(2);
    p.add_jobs(reqs(&[1, 2, 3, 4, 5]));
    p.cancel_job(id_text(4)).unwrap();
    p.cancel_job(id_text(1)).unwrap();
    p.finish_job(1, Outcome::Succeeded).unwrap();
    p.finish_job(2, Outcome::Failed("x".to_string())).unwrap();
    p.finish_job(3, Outcome::Cancelled).unwrap();
    p.finish_job(5, Outcome::Succeeded).unwrap();
    let fx = p.take_effects();
    for n in 1..=5u128 {
        let ends: Vec<usize> = fx
            .iter()
            .enumerate()
            .filter(|(_, e)| match e {
                Effect::Cancelled(i) | Effect::Completed(i) | Effect::Failed(i, _) => *i == n,
                _ => false,
            })
            .map(|(k, _)| k)
            .collect();
        assert_eq!(ends.len(), 1, "job {}", n);
        let starts: Vec<usize> = fx
            .iter()
            .enumerate()
            .filter(|(_, e)| matches!(e, Effect::Started(j) if j.id == n))
            .map(|(k, _)| k)
            .collect();
        if n == 4 {
            assert!(starts.is_empty());
        } else {
            assert_eq!(starts.len(), 1);
            assert!(starts[0] < ends[0]);
        }
    }
}

#[test]
fn identity_text_round_trip() {
    assert_eq!(parse_job_id("00000000-0000-0000-0000-000000000001"), Some(1));
    assert_eq!(
        parse_job_id("urn:uuid:a1a2a3a4-b1b2-c1c2-d1d2-d3d4d5d6d7d8"),
        Some(0xa1a2a3a4b1b2c1c2d1d2d3d4d5d6d7d8)
    );
    assert_eq!(parse_job_id("a1a2a3a4b1b2c1c2d1d2d3d4d5d6d7d8"), Some(0xa1a2a3a4b1b2c1c2d1d2d3d4d5d6d7d8));
    assert_eq!(parse_job_id(""), None);
    assert_eq!(parse_job_id("a1a2a3a4-b1b2-c1c2-d1d2-d3d4d5d6d7dg"), None);
    assert_eq!(job_id_text(0xA1A2A3A4B1B2C1C2D1D2D3D4D5D6D7D8), "a1a2a3a4-b1b2-c1c2-d1d2-d3d4d5d6d7d8");
    assert_eq!(job_id_text(1), "00000000-0000-0000-0000-000000000001");
}

fn job(n: u128) -> PipelineJob {
    PipelineJob {
        id: n,
        path: format!("/media/track{}.wav", n),
        extension: "mp3".to_string(),
        category: "audio".to_string(),
    }
}

#[test]
fn submit_job_and_cancel_id_by_value() {
    let mut p = PipelineManager::new(1);
    assert_eq!(p.submit_job(job(10)), Ok(()));
    assert_eq!(p.submit_job(job(11)), Ok(()));
    assert_eq!(p.submit_job(job(12)), Ok(()));
    assert_eq!(p.submit_job(job(11)), Err(Error::InvalidIdentity));
    p.try_dispatch();
    let fx = p.take_effects();
    assert_eq!(started(&fx), vec![10]);
    match &fx[3] {
        Effect::Started(j) => {
            assert_eq!(j.path, "/media/track10.wav");
            assert_eq!(j.extension, "mp3");
            assert_eq!(j.category, "audio");
        }
        other => panic!("unexpected effect {:?}", other),
    }
    assert_eq!(p.cancel_id(11), Ok(()));
    assert_eq!(p.cancel_id(11), Err(Error::JobNotFound));
    assert_eq!(p.cancel_id(10), Ok(()));
    let fx = p.take_effects();
    assert!(matches!(fx[0], Effect::Cancelled(11)));
    assert!(matches!(fx[1], Effect::Signal(10)));
    assert!(p.is_queued(12));
    assert!(p.is_running(10));
}

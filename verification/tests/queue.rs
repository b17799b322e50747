use reveal_viewer::cache::{LoadRequest, RequestId};
use reveal_viewer::loader::LoadQueue;
use reveal_viewer::render::Resample;

fn request(id: u64, index: usize) -> LoadRequest {
    LoadRequest {
        id: RequestId(id),
        path: format!("/p/{index}.png"),
        index,
        target_width: 0,
        target_height: 0,
        resample: Resample::Filtered,
    }
}

#[test]
fn nearest_request_is_taken_first() {
    let mut q = LoadQueue::new();
    q.push(request(1, 10));
    q.push(request(2, 4));
    q.push(request(3, 6));
    q.push(request(4, 5));
    assert_eq!(q.take_next(5).map(|r| r.id), Some(RequestId(4)));
    assert_eq!(q.take_next(5).map(|r| r.id), Some(RequestId(3)));
    assert_eq!(q.take_next(5).map(|r| r.id), Some(RequestId(2)));
    assert_eq!(q.take_next(5).map(|r| r.id), Some(RequestId(1)));
    assert!(q.take_next(5).is_none());
}

#[test]
fn cancelled_requests_are_skipped() {
    let mut q = LoadQueue::new();
    q.push(request(1, 1));
    q.push(request(2, 2));
    q.push(request(3, 9));
    let dropped = q.cancel_far_from(1, 2);
    assert_eq!(dropped, vec![RequestId(3)]);
    assert_eq!(q.pending_len(), 2);
    q.cancel(RequestId(1));
    assert_eq!(q.take_next(1).map(|r| r.id), Some(RequestId(2)));
    assert!(q.take_cancelled(RequestId(3)));
    assert!(!q.take_cancelled(RequestId(3)));
    q.push(request(5, 3));
    q.push(request(6, 4));
    q.cancel_all_except(&[RequestId(6)]);
    assert_eq!(q.pending_len(), 1);
    assert_eq!(q.cancel_everything(), vec![RequestId(6)]);
    assert!(q.take_next(0).is_none());
    q.shut_down();
    assert!(q.is_shut_down());
}

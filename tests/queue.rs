use jals::queue::WorkQueue;

#[test]
fn jobs_come_out_in_submission_order() {
    let mut q = WorkQueue::new();
    q.submit(1u32);
    q.submit(2);
    q.submit(3);
    assert_eq!(q.len(), 3);
    assert_eq!(q.take(), Some(1));
    assert_eq!(q.take(), Some(2));
    assert_eq!(q.take(), Some(3));
    assert_eq!(q.take(), None);
    assert!(q.is_empty());
}

#[test]
fn each_job_is_taken_once_across_interleavings() {
    let mut q = WorkQueue::new();
    let mut taken = Vec::new();
    for i in 0..100u32 {
        q.submit(i);
        if i % 3 == 0 {
            taken.push(q.take().unwrap());
        }
    }
    while let Some(j) = q.take() {
        taken.push(j);
    }
    assert_eq!(taken, (0..100).collect::<Vec<u32>>());
}

#[test]
fn empty_queue_gives_nothing() {
    let mut q: WorkQueue<u8> = WorkQueue::new();
    assert_eq!(q.take(), None);
    assert_eq!(q.len(), 0);
    assert!(q.is_empty());
}

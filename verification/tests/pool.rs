use hello_web::{Action, Message, PoolCreationError, TaskQueue, ThreadPool, Worker, WorkerState};
use std::cell::RefCell;
use std::rc::Rc;

type Job = Box<dyn FnOnce()>;

/// Lets worker `id` work until it is told to wait or to exit; returns the
/// action that stopped it.
fn drive(pool: &mut ThreadPool<Job>, id: usize) -> Action<Job> {
    loop {
        match pool.receive(id) {
            Action::Run(job) => job(),
            other => return other,
        }
    }
}

#[test]
fn threadpool_new_0() {
    assert_eq!(ThreadPool::<Job>::new(0).err().unwrap(), PoolCreationError::ZeroSize);
}

#[test]
fn threadpool_new_1() {
    assert!(ThreadPool::<Job>::new(1).is_ok());
}

#[test]
fn new_pool_has_exactly_the_workers_asked_for() {
    for size in 1..6usize {
        let pool = ThreadPool::<u32>::new(size).ok().unwrap();
        assert_eq!(pool.size(), size);
        assert_eq!(pool.queued(), 0);
        assert!(!pool.is_closing());
        assert!(!pool.is_finished());
        for id in 0..size {
            let worker = pool.worker(id).unwrap();
            assert_eq!(worker, Worker { id, state: WorkerState::Idle, joinable: true });
            assert!(worker.is_running());
        }
        assert_eq!(pool.worker(size), None);
    }
}

#[test]
fn zero_size_builds_no_worker() {
    let result = ThreadPool::<u32>::new(0);
    assert!(result.is_err());
    assert!(matches!(result, Err(PoolCreationError::ZeroSize)));
}

#[test]
fn one_worker_runs_three_jobs_before_shutdown_ends() {
    let counter = Rc::new(RefCell::new(0u32));
    let mut pool = ThreadPool::<Job>::new(1).ok().unwrap();
    for _ in 0..3 {
        let counter = Rc::clone(&counter);
        assert!(pool.execute(Box::new(move || *counter.borrow_mut() += 1)).is_ok());
    }
    assert_eq!(pool.queued(), 3);
    assert!(pool.shutdown());
    assert_eq!(pool.queued(), 4);
    assert_eq!(pool.next_join(), Some(0));
    assert!(!pool.is_finished());
    assert!(matches!(drive(&mut pool, 0), Action::Exit));
    assert!(pool.is_finished());
    assert_eq!(*counter.borrow(), 3);
    assert_eq!(pool.queued(), 0);
    assert_eq!(pool.next_join(), None);
}

#[test]
fn every_job_runs_exactly_once_on_some_worker() {
    let log = Rc::new(RefCell::new(Vec::new()));
    let mut pool = ThreadPool::<Job>::new(3).ok().unwrap();
    let k = 10u32;
    for ticket in 0..k {
        let log = Rc::clone(&log);
        assert!(pool.execute(Box::new(move || log.borrow_mut().push(ticket))).is_ok());
    }
    let mut ran_on = vec![0u32; 3];
    let mut turn = 0usize;
    while pool.queued() > 0 {
        if let Action::Run(job) = pool.receive(turn % 3) {
            job();
            ran_on[turn % 3] += 1;
        }
        turn += 1;
    }
    assert_eq!(ran_on.iter().sum::<u32>(), k);
    assert!(pool.shutdown());
    for id in 0..3 {
        assert!(matches!(drive(&mut pool, id), Action::Exit));
    }
    assert!(pool.is_finished());
    let mut seen = log.borrow().clone();
    assert_eq!(seen.len(), k as usize);
    seen.sort();
    assert_eq!(seen, (0..k).collect::<Vec<u32>>());
}

#[test]
fn any_interleaving_runs_every_job_once() {
    let mut seed: u64 = 0x2545_f491_4f6c_dd1d;
    let mut next = move |bound: usize| {
        seed = seed.wrapping_mul(6364136223846793005).wrapping_add(1442695040888963407);
        ((seed >> 33) as usize) % bound
    };
    for round in 0..200usize {
        let size = 1 + round % 4;
        let k = next(20);
        let log = Rc::new(RefCell::new(Vec::new()));
        let mut pool = ThreadPool::<Job>::new(size).ok().unwrap();
        let mut held: Vec<Option<Job>> = (0..size).map(|_| None).collect();
        let mut submitted = 0usize;
        let mut closing = false;
        let mut steps = 0usize;
        while !pool.is_finished() {
            steps += 1;
            assert!(steps < 100_000);
            let choice = next(size + 2);
            if choice == size {
                if !closing && submitted < k {
                    let log = Rc::clone(&log);
                    let ticket = submitted;
                    assert!(pool.execute(Box::new(move || log.borrow_mut().push(ticket))).is_ok());
                    submitted += 1;
                }
            } else if choice == size + 1 {
                if submitted == k && !closing {
                    assert!(pool.shutdown());
                    closing = true;
                }
            } else {
                let id = choice;
                if let Some(job) = held[id].take() {
                    job();
                }
                if let Action::Run(job) = pool.receive(id) {
                    held[id] = Some(job);
                }
            }
        }
        assert!(held.iter().all(|slot| slot.is_none()));
        assert_eq!(pool.queued(), 0);
        assert_eq!(pool.size(), size);
        let mut seen = log.borrow().clone();
        seen.sort();
        assert_eq!(seen, (0..k).collect::<Vec<usize>>());
        let mut joined = Vec::new();
        while let Some(id) = pool.next_join() {
            joined.push(id);
        }
        assert_eq!(joined, (0..size).collect::<Vec<usize>>());
    }
}

#[test]
fn jobs_are_handed_out_in_the_order_of_submission() {
    let mut pool = ThreadPool::<u32>::new(2).ok().unwrap();
    for ticket in [7u32, 3, 9, 1] {
        assert_eq!(pool.execute(ticket), Ok(()));
    }
    assert!(matches!(pool.receive(1), Action::Run(7)));
    assert!(matches!(pool.receive(0), Action::Run(3)));
    assert_eq!(pool.worker(0).unwrap().state, WorkerState::Busy);
    assert_eq!(pool.worker(1).unwrap().state, WorkerState::Busy);
    assert!(matches!(pool.receive(0), Action::Run(9)));
    assert!(matches!(pool.receive(0), Action::Run(1)));
    assert!(matches!(pool.receive(0), Action::Wait));
    assert_eq!(pool.worker(0).unwrap().state, WorkerState::Idle);
    assert_eq!(pool.worker(1).unwrap().state, WorkerState::Busy);
    assert_eq!(pool.queued(), 0);
}

#[test]
fn empty_pool_shuts_down_with_one_termination_per_worker() {
    for size in 1..5usize {
        let mut pool = ThreadPool::<Job>::new(size).ok().unwrap();
        assert!(pool.shutdown());
        assert!(pool.is_closing());
        assert_eq!(pool.queued(), size);
        for id in 0..size {
            assert!(!pool.is_finished());
            assert_eq!(pool.next_join(), Some(id));
            assert!(!pool.worker(id).unwrap().joinable);
            assert!(matches!(pool.receive(id), Action::Exit));
            assert_eq!(pool.worker(id).unwrap().state, WorkerState::Terminated);
            assert_eq!(pool.queued(), size - id - 1);
        }
        assert!(pool.is_finished());
        assert_eq!(pool.next_join(), None);
        assert_eq!(pool.size(), size);
    }
}

#[test]
fn shutdown_waits_for_the_slow_job() {
    let log: Rc<RefCell<Vec<&'static str>>> = Rc::new(RefCell::new(Vec::new()));
    let mut pool = ThreadPool::<Job>::new(2).ok().unwrap();
    let for_a = Rc::clone(&log);
    let for_b = Rc::clone(&log);
    assert!(pool.execute(Box::new(move || for_a.borrow_mut().push("A"))).is_ok());
    assert!(pool.execute(Box::new(move || for_b.borrow_mut().push("B"))).is_ok());
    let slow = match pool.receive(0) {
        Action::Run(job) => job,
        _ => panic!("worker 0 was not given the first job"),
    };
    match pool.receive(1) {
        Action::Run(job) => job(),
        _ => panic!("worker 1 was not given the second job"),
    }
    assert!(pool.shutdown());
    assert!(matches!(pool.receive(1), Action::Exit));
    assert_eq!(pool.next_join(), Some(0));
    assert!(!pool.is_finished());
    assert_eq!(pool.worker(0).unwrap().state, WorkerState::Busy);
    assert_eq!(*log.borrow(), vec!["B"]);
    slow();
    assert!(matches!(pool.receive(0), Action::Exit));
    assert!(pool.is_finished());
    assert_eq!(pool.next_join(), Some(1));
    assert_eq!(pool.next_join(), None);
    assert!(log.borrow().contains(&"A"));
    assert!(log.borrow().contains(&"B"));
    assert_eq!(log.borrow().len(), 2);
}

#[test]
fn execute_after_shutdown_hands_the_job_back() {
    let mut pool = ThreadPool::<u32>::new(2).ok().unwrap();
    assert_eq!(pool.execute(1), Ok(()));
    assert!(pool.shutdown());
    assert_eq!(pool.execute(2), Err(2));
    assert_eq!(pool.queued(), 3);
    assert!(matches!(pool.receive(0), Action::Run(1)));
    assert!(matches!(pool.receive(1), Action::Exit));
    assert!(matches!(pool.receive(0), Action::Exit));
    assert!(pool.is_finished());
    assert_eq!(pool.execute(3), Err(3));
    assert_eq!(pool.queued(), 0);
}

#[test]
fn second_shutdown_changes_nothing() {
    let mut pool = ThreadPool::<u32>::new(3).ok().unwrap();
    assert!(pool.shutdown());
    assert_eq!(pool.queued(), 3);
    assert!(!pool.shutdown());
    assert_eq!(pool.queued(), 3);
    assert!(pool.is_closing());
}

#[test]
fn nothing_is_joined_before_shutdown() {
    let mut pool = ThreadPool::<u32>::new(2).ok().unwrap();
    assert_eq!(pool.next_join(), None);
    assert!(pool.worker(0).unwrap().joinable);
    assert!(pool.worker(1).unwrap().joinable);
}

#[test]
fn terminated_or_unknown_worker_takes_no_message() {
    let mut pool = ThreadPool::<u32>::new(2).ok().unwrap();
    assert_eq!(pool.execute(5), Ok(()));
    assert!(matches!(pool.receive(2), Action::Exit));
    assert!(matches!(pool.receive(usize::MAX), Action::Exit));
    assert_eq!(pool.queued(), 1);
    assert!(matches!(pool.receive(0), Action::Run(5)));
    assert!(pool.shutdown());
    assert!(matches!(pool.receive(0), Action::Exit));
    assert_eq!(pool.queued(), 1);
    assert!(matches!(pool.receive(0), Action::Exit));
    assert_eq!(pool.queued(), 1);
    assert!(!pool.is_finished());
    assert!(matches!(pool.receive(1), Action::Exit));
    assert!(pool.is_finished());
}

#[test]
fn idle_worker_is_told_to_wait() {
    let mut pool = ThreadPool::<u32>::new(1).ok().unwrap();
    assert!(matches!(pool.receive(0), Action::Wait));
    assert!(matches!(pool.receive(0), Action::Wait));
    assert_eq!(pool.worker(0).unwrap().state, WorkerState::Idle);
    assert_eq!(pool.execute(11), Ok(()));
    assert!(matches!(pool.receive(0), Action::Run(11)));
    assert!(matches!(pool.receive(0), Action::Wait));
}

#[test]
fn worker_follows_its_messages() {
    let mut worker = Worker::new(4);
    assert_eq!(worker, Worker { id: 4, state: WorkerState::Idle, joinable: true });
    assert!(matches!(worker.deliver(Message::NewJob(8u8)), Action::Run(8)));
    assert_eq!(worker.state, WorkerState::Busy);
    assert!(worker.is_running());
    worker.wait();
    assert_eq!(worker.state, WorkerState::Idle);
    assert!(matches!(worker.deliver(Message::<u8>::Terminate), Action::Exit));
    assert_eq!(worker.state, WorkerState::Terminated);
    assert!(!worker.is_running());
    assert_eq!(worker.id, 4);
}

#[test]
fn thread_slot_is_taken_once() {
    let mut worker = Worker::new(0);
    assert!(worker.take_thread());
    assert!(!worker.joinable);
    assert!(!worker.take_thread());
    assert!(!worker.take_thread());
}

#[test]
fn queue_delivers_each_message_once_in_order() {
    let mut queue = TaskQueue::<u32>::new();
    assert!(queue.is_empty());
    assert!(queue.receive().is_none());
    queue.send(Message::NewJob(1));
    queue.send(Message::Terminate);
    queue.send(Message::NewJob(2));
    assert_eq!(queue.len(), 3);
    assert!(matches!(queue.receive(), Some(Message::NewJob(1))));
    assert!(matches!(queue.receive(), Some(Message::Terminate)));
    assert_eq!(queue.len(), 1);
    assert!(matches!(queue.receive(), Some(Message::NewJob(2))));
    assert!(queue.receive().is_none());
    assert!(queue.is_empty());
    assert_eq!(queue.len(), 0);
}

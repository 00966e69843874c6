use mocasa::error::ErrorKind;
use mocasa::threads::{
    Collector, Directive, Phase, TaskQueue, MSG_ALREADY_STARTED, MSG_IDLE_WORKER,
    MSG_NOT_COMPLETE, MSG_NOT_FEEDING, MSG_NO_SEND_DUE, MSG_UNKNOWN_WORKER,
};
use std::collections::VecDeque;

#[derive(Clone, Debug, PartialEq)]
enum TestOutMessage {
    Ping,
}

#[derive(Debug, PartialEq)]
struct TestInMessage {
    i_thread: usize,
}

struct TestObserver {
    n_start_calls: usize,
    n_send_calls: usize,
    n_receive_calls: usize,
    n_no_more_send_calls: usize,
    n_complete_calls: usize,
}

impl TestObserver {
    fn new() -> TestObserver {
        TestObserver {
            n_start_calls: 0,
            n_send_calls: 0,
            n_receive_calls: 0,
            n_no_more_send_calls: 0,
            n_complete_calls: 0,
        }
    }

    fn going_to_start_queue(&mut self) {
        self.n_start_calls += 1;
    }

    fn going_to_send(&mut self, out_message: &TestOutMessage, i_task: usize, i_thread: usize) {
        assert!(matches!(out_message, TestOutMessage::Ping));
        assert!(i_task >= i_thread);
        self.n_send_calls += 1;
    }

    fn have_received(&mut self, in_message: &TestInMessage, i_task: usize, i_thread: usize) {
        assert_eq!(in_message.i_thread, i_thread);
        assert!(i_task >= i_thread);
        self.n_receive_calls += 1;
    }

    fn nothing_more_to_send(&mut self) {
        self.n_no_more_send_calls += 1;
    }

    fn completed_queue(&mut self) {
        self.n_complete_calls += 1;
    }
}

/// Drives a queue as the pool does, with workers that answer in the order in
/// which they were given their tasks.
fn run_queue(
    n_threads: usize,
    out_messages: Vec<TestOutMessage>,
    observer: &mut TestObserver,
) -> Vec<TestInMessage> {
    let mut queue: TaskQueue<TestInMessage> = TaskQueue::new(n_threads);
    let mut out_iter = out_messages.into_iter();
    let mut at_work: VecDeque<usize> = VecDeque::new();
    loop {
        match queue.directive() {
            Directive::Start => {
                observer.going_to_start_queue();
                queue.started().unwrap();
            }
            Directive::Send { i_task, i_thread } => match out_iter.next() {
                None => {
                    observer.nothing_more_to_send();
                    queue.nothing_more_to_send().unwrap();
                }
                Some(out_message) => {
                    observer.going_to_send(&out_message, i_task, i_thread);
                    at_work.push_back(i_thread);
                    queue.sent().unwrap();
                }
            },
            Directive::Receive => {
                let i_thread = at_work.pop_front().unwrap();
                let in_message = TestInMessage { i_thread };
                let i_task = queue.task_of(i_thread).unwrap();
                observer.have_received(&in_message, i_task, i_thread);
                assert_eq!(queue.received(i_thread, in_message).unwrap(), i_task);
            }
            Directive::Complete => {
                observer.completed_queue();
                return queue.finish().unwrap();
            }
        }
    }
}

#[test]
fn test_queue() {
    const N_TASKS: usize = 10;
    for n_threads in 1usize..4 {
        let mut observer = TestObserver::new();
        let out_messages: Vec<TestOutMessage> = vec![TestOutMessage::Ping; N_TASKS];
        let in_messages = run_queue(n_threads, out_messages, &mut observer);
        assert_eq!(in_messages.len(), N_TASKS);
        assert_eq!(observer.n_start_calls, 1);
        assert_eq!(observer.n_send_calls, N_TASKS);
        assert_eq!(observer.n_receive_calls, N_TASKS);
        assert_eq!(observer.n_no_more_send_calls, 1);
        assert_eq!(observer.n_complete_calls, 1);
    }
}

#[test]
fn queue_without_tasks_completes_at_once() {
    let mut observer = TestObserver::new();
    let in_messages = run_queue(3, Vec::new(), &mut observer);
    assert!(in_messages.is_empty());
    assert_eq!(observer.n_start_calls, 1);
    assert_eq!(observer.n_send_calls, 0);
    assert_eq!(observer.n_no_more_send_calls, 1);
    assert_eq!(observer.n_complete_calls, 1);
}

#[test]
fn queue_orders_results_by_task_whatever_the_order_of_arrival() {
    let mut queue: TaskQueue<&'static str> = TaskQueue::new(3);
    assert_eq!(queue.n_threads(), 3);
    assert_eq!(queue.phase(), Phase::Fresh);
    queue.started().unwrap();
    assert_eq!(queue.phase(), Phase::Feeding);
    assert_eq!(queue.directive(), Directive::Send { i_task: 0, i_thread: 0 });
    queue.sent().unwrap();
    assert_eq!(queue.directive(), Directive::Send { i_task: 1, i_thread: 1 });
    queue.sent().unwrap();
    assert_eq!(queue.directive(), Directive::Send { i_task: 2, i_thread: 2 });
    queue.sent().unwrap();
    assert_eq!(queue.directive(), Directive::Receive);
    assert_eq!(queue.received(2, "answer to task 2").unwrap(), 2);
    assert_eq!(queue.directive(), Directive::Send { i_task: 3, i_thread: 2 });
    queue.sent().unwrap();
    assert_eq!(queue.n_sent(), 4);
    assert_eq!(queue.task_of(2), Some(3));
    assert_eq!(queue.received(0, "answer to task 0").unwrap(), 0);
    assert_eq!(queue.directive(), Directive::Send { i_task: 4, i_thread: 0 });
    queue.nothing_more_to_send().unwrap();
    assert_eq!(queue.phase(), Phase::Draining);
    assert_eq!(queue.directive(), Directive::Receive);
    assert_eq!(queue.received(2, "answer to task 3").unwrap(), 3);
    assert_eq!(queue.received(1, "answer to task 1").unwrap(), 1);
    assert_eq!(queue.directive(), Directive::Complete);
    assert_eq!(
        queue.finish().unwrap(),
        vec!["answer to task 0", "answer to task 1", "answer to task 2", "answer to task 3"]
    );
}

#[test]
fn queue_refuses_what_is_not_due() {
    let mut queue: TaskQueue<u8> = TaskQueue::new(2);
    let error = queue.sent().unwrap_err();
    assert_eq!(error.kind, ErrorKind::Mocasa);
    assert_eq!(error.message, MSG_NO_SEND_DUE);
    assert_eq!(queue.nothing_more_to_send().unwrap_err().message, MSG_NOT_FEEDING);
    queue.started().unwrap();
    assert_eq!(queue.started().unwrap_err().message, MSG_ALREADY_STARTED);
    assert_eq!(queue.received(2, 7).unwrap_err().message, MSG_UNKNOWN_WORKER);
    assert_eq!(queue.received(1, 7).unwrap_err().message, MSG_IDLE_WORKER);
    assert_eq!(queue.task_of(1), None);
    assert_eq!(queue.task_of(5), None);
    queue.sent().unwrap();
    queue.sent().unwrap();
    assert_eq!(queue.sent().unwrap_err().message, MSG_NO_SEND_DUE);
    queue.nothing_more_to_send().unwrap();
    assert_eq!(queue.nothing_more_to_send().unwrap_err().message, MSG_NOT_FEEDING);
    assert_eq!(queue.sent().unwrap_err().message, MSG_NO_SEND_DUE);
    assert_eq!(queue.directive(), Directive::Receive);
}

#[test]
fn queue_cannot_finish_early() {
    let mut queue: TaskQueue<u8> = TaskQueue::new(1);
    queue.started().unwrap();
    queue.sent().unwrap();
    let error = queue.finish().unwrap_err();
    assert_eq!(error.kind, ErrorKind::Mocasa);
    assert_eq!(error.message, MSG_NOT_COMPLETE);
}

#[test]
fn collector_files_responses_by_worker() {
    let mut collector: Collector<&'static str> = Collector::new(3);
    assert_eq!(collector.n_threads(), 3);
    assert!(!collector.is_complete());
    collector.accept(2, "from worker 2").unwrap();
    collector.accept(0, "from worker 0").unwrap();
    assert!(!collector.is_complete());
    collector.accept(0, "from worker 0 again").unwrap();
    assert!(!collector.is_complete());
    collector.accept(1, "from worker 1").unwrap();
    assert!(collector.is_complete());
    assert_eq!(
        collector.into_responses(),
        vec!["from worker 0 again", "from worker 1", "from worker 2"]
    );
}

#[test]
fn collector_refuses_an_unknown_worker() {
    let mut collector: Collector<u8> = Collector::new(2);
    let error = collector.accept(2, 9).unwrap_err();
    assert_eq!(error.kind, ErrorKind::Mocasa);
    assert_eq!(error.message, MSG_UNKNOWN_WORKER);
    collector.accept(1, 4).unwrap();
    assert_eq!(collector.into_responses(), vec![4]);
}

#[test]
fn collector_for_no_worker_is_complete() {
    let collector: Collector<u8> = Collector::new(0);
    assert!(collector.is_complete());
    assert!(collector.into_responses().is_empty());
}

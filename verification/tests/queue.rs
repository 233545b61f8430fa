use typing_trainer::data::Task;
use typing_trainer::queue::TaskQueue;

#[test]
fn draws_every_task_exactly_once() {
    let dataset = vec![
        Task::new(String::from("alpha"), None),
        Task::new(String::from("beta"), None),
        Task::new(String::from("gamma"), None),
        Task::new(String::from("delta"), None),
    ];
    let mut queue = TaskQueue::new(&dataset);
    assert_eq!(queue.len(), 4);

    let mut drawn: Vec<String> = Vec::new();
    while !queue.is_empty() {
        let task = queue.draw_random();
        drawn.push(String::from(task.get_task()));
    }
    assert_eq!(queue.len(), 0);
    assert_eq!(drawn.len(), 4);

    drawn.sort();
    assert_eq!(drawn, vec!["alpha", "beta", "delta", "gamma"]);
}

#[test]
fn draw_shrinks_queue_by_one() {
    let dataset = vec![
        Task::new(String::from("one"), None),
        Task::new(String::from("two"), None),
    ];
    let mut queue = TaskQueue::new(&dataset);
    let first = queue.draw_random();
    assert_eq!(queue.len(), 1);
    let second = queue.draw_random();
    assert!(queue.is_empty());
    let mut texts = vec![String::from(first.get_task()), String::from(second.get_task())];
    texts.sort();
    assert_eq!(texts, vec!["one", "two"]);
}

#[test]
fn queue_copies_dataset_in_order() {
    let dataset = vec![Task::new(
        String::from("solo"),
        Some(String::from("meta")),
    )];
    let mut queue = TaskQueue::new(&dataset);
    let task = queue.draw_random();
    assert_eq!(task.get_task(), "solo");
    assert_eq!(task.get_mdata(), Some("meta"));
    assert_eq!(dataset.len(), 1);
}

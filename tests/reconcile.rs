use booru::errors::Error;
use booru::models::image::{Image, Timestamp};
use booru::models::tag::Tag;
use booru::reconcile::{
    collect_tags, contains_tag, finish_update, reconcile, same_tag, update_tags, Operation, UpdateStep,
};

fn stored(id: &str, count: u32) -> Tag {
    let mut t = Tag::new(format!("name-{}", id), "artist".to_string(), String::new());
    t.id = Some(id.to_string());
    t.count = count;
    t
}

fn image(id: Option<&str>) -> Image {
    let mut i = Image::uploaded("0123456789abcdef0123456789abcdef".to_string(), Timestamp { seconds: 0, nanos: 0 }, "image/png".to_string());
    i.id = id.map(|s| s.to_string());
    i
}

fn ids(ts: &[Tag]) -> Vec<String> {
    ts.iter().map(|t| t.id.clone().unwrap()).collect()
}

#[test]
fn reconcile_adds_and_removes() {
    let current = vec![stored("tag:T1", 1), stored("tag:T2", 1)];
    let desired = vec![stored("tag:T2", 1), stored("tag:T3", 0)];
    let plan = reconcile(&current, &desired);
    assert_eq!(ids(&plan.to_add), vec!["tag:T3"]);
    assert_eq!(ids(&plan.to_remove), vec!["tag:T1"]);
}

#[test]
fn reconcile_same_set_is_empty() {
    let s = vec![stored("tag:a", 3), stored("tag:b", 1), stored("tag:c", 2)];
    let plan = reconcile(&s, &s);
    assert!(plan.to_add.is_empty());
    assert!(plan.to_remove.is_empty());
    let empty: Vec<Tag> = vec![];
    let plan = reconcile(&empty, &empty);
    assert!(plan.to_add.is_empty() && plan.to_remove.is_empty());
}

#[test]
fn reconcile_compares_by_id_only() {
    let mut renamed = stored("tag:T1", 7);
    renamed.name = "other".to_string();
    let plan = reconcile(&vec![stored("tag:T1", 1)], &vec![renamed]);
    assert!(plan.to_add.is_empty() && plan.to_remove.is_empty());
}

#[test]
fn same_tag_and_contains() {
    assert!(same_tag(&stored("tag:1", 0), &stored("tag:1", 5)));
    assert!(!same_tag(&stored("tag:1", 0), &stored("tag:2", 0)));
    let s = vec![stored("tag:1", 0), stored("tag:2", 0)];
    assert!(contains_tag(&s, &stored("tag:2", 9)));
    assert!(!contains_tag(&s, &stored("tag:3", 0)));
}

#[test]
fn update_builds_one_batch() {
    let current = vec![stored("tag:T1", 1), stored("tag:T2", 1)];
    let desired = vec![stored("tag:T2", 1), stored("tag:T3", 0)];
    let step = update_tags(&image(Some("image:abc")), &current, &desired);
    let expected = vec![
        Operation::Unrelate { item: "image:abc".to_string(), tag: "tag:T1".to_string() },
        Operation::Decrement { tag: "tag:T1".to_string() },
        Operation::Relate { item: "image:abc".to_string(), tag: "tag:T3".to_string() },
        Operation::Increment { tag: "tag:T3".to_string() },
    ];
    assert_eq!(step, UpdateStep::Transact(expected));
}

#[test]
fn update_with_current_tags_is_noop() {
    let current = vec![stored("tag:T1", 1), stored("tag:T2", 4)];
    assert_eq!(update_tags(&image(Some("image:abc")), &current, &current), UpdateStep::Done(Ok(())));
    assert_eq!(update_tags(&image(None), &current, &current), UpdateStep::Done(Ok(())));
}

#[test]
fn failed_transaction_leaves_tags_unchanged() {
    let current = vec![stored("tag:T1", 1), stored("tag:T2", 1)];
    let desired = vec![stored("tag:T2", 1), stored("tag:T3", 0)];
    let mut store = current.clone();
    let step = update_tags(&image(Some("image:abc")), &current, &desired);
    let outcome = match step {
        UpdateStep::Transact(_) => Err(Error::DatabaseError),
        UpdateStep::Done(_) => panic!("a batch was expected"),
    };
    let result = finish_update(outcome);
    assert_eq!(result, Err(Error::ReconcileFailed));
    if result.is_ok() {
        store = desired.clone();
    }
    assert_eq!(ids(&store), vec!["tag:T1", "tag:T2"]);
    assert_eq!(finish_update(Ok(())), Ok(()));
}

#[test]
fn update_needs_stored_records() {
    let current = vec![stored("tag:T1", 1)];
    let desired = vec![stored("tag:T2", 0)];
    assert_eq!(update_tags(&image(None), &current, &desired), UpdateStep::Done(Err(Error::InvalidId)));
    let unstored = Tag::new("n".to_string(), "c".to_string(), String::new());
    assert_eq!(
        update_tags(&image(Some("image:abc")), &current, &vec![unstored]),
        UpdateStep::Done(Err(Error::InvalidId))
    );
}

#[test]
fn update_refuses_counts_out_of_range() {
    let current = vec![stored("tag:T1", 0)];
    let desired: Vec<Tag> = vec![];
    assert_eq!(
        update_tags(&image(Some("image:abc")), &current, &desired),
        UpdateStep::Done(Err(Error::DatabaseInconsistent))
    );
    let full = vec![stored("tag:T2", u32::MAX)];
    assert_eq!(
        update_tags(&image(Some("image:abc")), &desired, &full),
        UpdateStep::Done(Err(Error::DatabaseInconsistent))
    );
}

#[test]
fn operation_statements() {
    let item = "image:abc".to_string();
    let tag = "tag:x".to_string();
    assert_eq!(Operation::Relate { item: item.clone(), tag: tag.clone() }.statement(), "relate image:abc->tagged->tag:x;");
    assert_eq!(
        Operation::Unrelate { item, tag: tag.clone() }.statement(),
        "delete tagged where in = image:abc and out = tag:x;"
    );
    assert_eq!(Operation::Increment { tag: tag.clone() }.statement(), "update tag:x set count += 1;");
    assert_eq!(Operation::Decrement { tag }.statement(), "update tag:x set count += -1;");
}

#[test]
fn collect_tags_all_or_nothing() {
    let r = collect_tags(vec![Some(stored("tag:1", 0)), Some(stored("tag:2", 0))]).unwrap();
    assert_eq!(ids(&r), vec!["tag:1", "tag:2"]);
    assert_eq!(collect_tags(vec![Some(stored("tag:1", 0)), None]), Err(Error::DatabaseError));
    assert_eq!(collect_tags(vec![]), Ok(vec![]));
}

#[test]
fn repeated_tags_count_once() {
    let empty: Vec<Tag> = vec![];
    let desired = vec![stored("tag:T3", 0), stored("tag:T3", 0), stored("tag:T4", 2), stored("tag:T3", 0)];
    let plan = reconcile(&empty, &desired);
    assert_eq!(ids(&plan.to_add), vec!["tag:T3", "tag:T4"]);
    let current = vec![stored("tag:T1", 2), stored("tag:T1", 2)];
    let plan = reconcile(&current, &empty);
    assert_eq!(ids(&plan.to_remove), vec!["tag:T1"]);
    let step = update_tags(&image(Some("image:abc")), &empty, &vec![stored("tag:T3", 0), stored("tag:T3", 0)]);
    let expected = vec![
        Operation::Relate { item: "image:abc".to_string(), tag: "tag:T3".to_string() },
        Operation::Increment { tag: "tag:T3".to_string() },
    ];
    assert_eq!(step, UpdateStep::Transact(expected));
}

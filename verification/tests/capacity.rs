use quickpaste_history::capacity::{
    image_prune_ids, image_prune_start, image_prune_step, records_over_limit, ImagePruneAction,
    ImagePruneState,
};
use quickpaste_history::mutation::insert_sorted_id;

fn candidates(sizes: &[(&str, u64)]) -> Vec<(String, u64)> {
    sizes.iter().map(|(id, size)| ((*id).to_owned(), *size)).collect()
}

#[test]
fn only_records_over_the_limit_are_pruned() {
    assert_eq!(records_over_limit(10, 7), 3);
    assert_eq!(records_over_limit(7, 7), 0);
    assert_eq!(records_over_limit(2, 7), 0);
}

#[test]
fn the_oldest_images_go_until_the_budget_holds() {
    let list = candidates(&[("a", 40), ("b", 30), ("c", 20), ("d", 10)]);
    assert_eq!(image_prune_ids(100, 50, &list), vec!["a".to_owned(), "b".to_owned()]);
    assert_eq!(image_prune_ids(100, 60, &list), vec!["a".to_owned()]);
    assert_eq!(image_prune_ids(100, 100, &list), Vec::<String>::new());
    assert_eq!(
        image_prune_ids(200, 0, &list),
        vec!["a".to_owned(), "b".to_owned(), "c".to_owned(), "d".to_owned()]
    );
    let oversized = candidates(&[("a", 500), ("b", 1)]);
    assert_eq!(image_prune_ids(100, 10, &oversized), vec!["a".to_owned()]);
}

#[test]
fn pruned_ids_stay_sorted_and_unique() {
    let mut ids = Vec::new();
    for id in ["m", "b", "z", "b", "a", "m"] {
        insert_sorted_id(&mut ids, id);
    }
    assert_eq!(ids, vec!["a", "b", "m", "z"]);
}

#[test]
fn image_pruning_steps_until_the_budget_holds() {
    let list = candidates(&[("a", 40), ("b", 30), ("c", 20), ("d", 10)]);
    let (state, action) = image_prune_start(100, 50, &list);
    assert_eq!(state, ImagePruneState { remaining: 100, next: 0 });
    assert_eq!(action, ImagePruneAction::Delete { index: 0 });
    let (state, action) = image_prune_step(state, 50, &list, true);
    assert_eq!(state, ImagePruneState { remaining: 60, next: 1 });
    assert_eq!(action, ImagePruneAction::Delete { index: 1 });
    let (state, action) = image_prune_step(state, 50, &list, true);
    assert_eq!(state, ImagePruneState { remaining: 30, next: 2 });
    assert_eq!(action, ImagePruneAction::Stop);

    // A row already gone frees nothing, so pruning goes on to the next one.
    let (state, action) = image_prune_start(100, 50, &list);
    assert_eq!(action, ImagePruneAction::Delete { index: 0 });
    let (state, action) = image_prune_step(state, 50, &list, false);
    assert_eq!(state.remaining, 100);
    assert_eq!(action, ImagePruneAction::Delete { index: 1 });
    let (_, action) = image_prune_step(state, 50, &list, true);
    assert_eq!(action, ImagePruneAction::Delete { index: 2 });

    assert_eq!(image_prune_start(100, 100, &list).1, ImagePruneAction::Stop);
    assert_eq!(image_prune_start(100, 0, &[]).1, ImagePruneAction::Stop);
}

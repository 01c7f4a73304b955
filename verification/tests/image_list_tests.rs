use tinyimg::image_list::{
    add_images, clear_images, finish_task, next_image_id, remove_image, start_batch, ImageItem,
};
use tinyimg::worker::task::TaskStatus;

fn paths(names: &[&str]) -> Vec<String> {
    names.iter().map(|n| n.to_string()).collect()
}

#[test]
fn added_images_get_fresh_increasing_ids() {
    let mut items: Vec<ImageItem> = Vec::new();
    add_images(&mut items, paths(&["a.png", "b.jpg"]));
    add_images(&mut items, paths(&["c.gif"]));
    let ids: Vec<u64> = items.iter().map(|i| i.id).collect();
    assert_eq!(ids, vec![0, 1, 2]);
    assert_eq!(items[2].filepath, "c.gif");
    assert!(items.iter().all(|i| i.status.is_pending()));
    assert_eq!(next_image_id(&items), 3);
}

#[test]
fn ids_continue_after_the_largest_one() {
    let mut items: Vec<ImageItem> = Vec::new();
    add_images(&mut items, paths(&["a.png", "b.png", "c.png"]));
    assert!(remove_image(&mut items, 1));
    assert!(!remove_image(&mut items, 1));
    add_images(&mut items, paths(&["d.png"]));
    let ids: Vec<u64> = items.iter().map(|i| i.id).collect();
    assert_eq!(ids, vec![0, 2, 3]);
    assert!(remove_image(&mut items, 3));
    add_images(&mut items, paths(&["e.png"]));
    assert_eq!(items.last().unwrap().id, 3);
    clear_images(&mut items);
    assert!(items.is_empty());
    add_images(&mut items, paths(&["f.png"]));
    assert_eq!(items[0].id, 0);
}

#[test]
fn a_batch_runs_pending_items_to_their_outcome() {
    let mut items: Vec<ImageItem> = Vec::new();
    add_images(&mut items, paths(&["a.png", "b.png", "c.png"]));
    let tasks = start_batch(&mut items);
    assert_eq!(tasks, vec![(0, "a.png".to_string()), (1, "b.png".to_string()), (2, "c.png".to_string())]);
    assert!(items.iter().all(|i| matches!(i.status, TaskStatus::Processing)));
    assert!(start_batch(&mut items).is_empty());

    let mut done = 0u64;
    assert!(!finish_task(&mut items, 1, Ok((1000, 400)), &mut done, 3));
    assert_eq!(done, 1);
    assert!(matches!(
        items[1].status,
        TaskStatus::Completed { original_size: 1000, compressed_size: 400 }
    ));
    assert!(matches!(items[0].status, TaskStatus::Processing));
    assert!(!finish_task(&mut items, 0, Err("bad".to_string()), &mut done, 3));
    assert!(matches!(&items[0].status, TaskStatus::Failed { error } if error == "bad"));
    assert!(finish_task(&mut items, 2, Ok((10, 5)), &mut done, 3));
    assert_eq!(done, 3);
}

#[test]
fn a_removed_task_still_counts_as_done() {
    let mut items: Vec<ImageItem> = Vec::new();
    add_images(&mut items, paths(&["a.png", "b.png"]));
    let tasks = start_batch(&mut items);
    assert_eq!(tasks.len(), 2);
    assert!(remove_image(&mut items, 0));
    let mut done = 0u64;
    assert!(!finish_task(&mut items, 0, Ok((1, 1)), &mut done, 2));
    assert_eq!(items.len(), 1);
    assert!(matches!(items[0].status, TaskStatus::Processing));
    assert!(finish_task(&mut items, 1, Ok((1, 1)), &mut done, 2));
}

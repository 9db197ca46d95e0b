use planet_mars::durable::FileStep;
use planet_mars::feed_store::FeedStore;
use std::collections::HashMap;

fn carry_out(files: &mut HashMap<String, Vec<u8>>, steps: Vec<FileStep>) {
    for step in steps {
        match step {
            FileStep::Rename { from, to } => {
                let contents = files.remove(&from).unwrap();
                files.insert(to, contents);
            }
            FileStep::Write { path, contents } => {
                files.insert(path, contents);
            }
        }
    }
}

fn write_through(files: &mut HashMap<String, Vec<u8>>, path: &str, contents: &[u8]) {
    let exists = files.contains_key(path);
    carry_out(files, FeedStore::write(path, contents.to_vec(), exists));
}

#[test]
fn new_file_is_written_without_backup() {
    let steps = FeedStore::write("cache/feed", b"one".to_vec(), false);
    assert_eq!(
        steps,
        vec![FileStep::Write { path: "cache/feed".to_string(), contents: b"one".to_vec() }]
    );
}

#[test]
fn file_that_is_there_is_moved_aside_first() {
    let steps = FeedStore::write("cache/feed", b"two".to_vec(), true);
    assert_eq!(
        steps,
        vec![
            FileStep::Rename {
                from: "cache/feed".to_string(),
                to: "cache/feed.backup".to_string()
            },
            FileStep::Write { path: "cache/feed".to_string(), contents: b"two".to_vec() },
        ]
    );
}

#[test]
fn second_write_leaves_first_in_backup() {
    let mut files = HashMap::new();
    write_through(&mut files, "cache/feed", b"first");
    assert_eq!(files.len(), 1);
    write_through(&mut files, "cache/feed", b"second");
    assert_eq!(files.len(), 2);
    assert_eq!(files["cache/feed"], b"second".to_vec());
    assert_eq!(files["cache/feed.backup"], b"first".to_vec());
}

#[test]
fn only_one_generation_of_backup_is_kept() {
    let mut files = HashMap::new();
    write_through(&mut files, "cache/feed", b"first");
    write_through(&mut files, "cache/feed", b"second");
    write_through(&mut files, "cache/feed", b"third");
    assert_eq!(files.len(), 2);
    assert_eq!(files["cache/feed"], b"third".to_vec());
    assert_eq!(files["cache/feed.backup"], b"second".to_vec());
}

#[test]
fn other_files_are_left_alone() {
    let mut files = HashMap::new();
    files.insert("cache/other".to_string(), b"kept".to_vec());
    write_through(&mut files, "cache/feed", b"first");
    write_through(&mut files, "cache/feed", b"second");
    assert_eq!(files["cache/other"], b"kept".to_vec());
    assert_eq!(files.len(), 3);
}

#[test]
fn empty_contents_are_written_too() {
    let steps = FeedStore::write("f", Vec::new(), false);
    assert_eq!(steps, vec![FileStep::Write { path: "f".to_string(), contents: Vec::new() }]);
}

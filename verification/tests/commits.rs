use note_secretary::files::commit::commit;
use note_secretary::files::commit::Step;
use note_secretary::files::index::has_suffix;
use note_secretary::files::commit::temp_name;
use std::collections::BTreeMap;

type Directory = BTreeMap<Vec<u8>, Vec<u8>>;

fn take(dir: &mut Directory, step: &Step) {
    match step {
        Step::Stage { name, bytes } => {
            dir.insert(name.clone(), bytes.clone());
        }
        Step::Swap { from, to } => {
            if let Some(bytes) = dir.remove(from) {
                dir.insert(to.clone(), bytes);
            }
        }
    }
}

#[test]
fn commit_stages_then_swaps() {
    let plan = commit(b"0001.message", vec![1, 2, 3]);
    assert_eq!(
        plan,
        vec![
            Step::Stage { name: b"0001.message.tmp".to_vec(), bytes: vec![1, 2, 3] },
            Step::Swap { from: b"0001.message.tmp".to_vec(), to: b"0001.message".to_vec() },
        ]
    );
}

#[test]
fn container_is_old_or_new_at_every_step() {
    let name = b"f1".to_vec();
    let mut dir = Directory::new();
    dir.insert(name.clone(), b"old".to_vec());
    dir.insert(b"other".to_vec(), b"x".to_vec());
    let plan = commit(&name, b"new".to_vec());
    assert_eq!(dir.get(&name), Some(&b"old".to_vec()));
    take(&mut dir, &plan[0]);
    assert_eq!(dir.get(&name), Some(&b"old".to_vec()));
    take(&mut dir, &plan[1]);
    assert_eq!(dir.get(&name), Some(&b"new".to_vec()));
    assert_eq!(dir.get(&b"other".to_vec()), Some(&b"x".to_vec()));
    assert_eq!(dir.len(), 2);
}

#[test]
fn first_container_appears_whole() {
    let name = b"0000.message".to_vec();
    let mut dir = Directory::new();
    let plan = commit(&name, b"new".to_vec());
    take(&mut dir, &plan[0]);
    assert_eq!(dir.get(&name), None);
    take(&mut dir, &plan[1]);
    assert_eq!(dir.get(&name), Some(&b"new".to_vec()));
    assert_eq!(dir.len(), 1);
}

#[test]
fn leftover_is_staged_over() {
    let name = b"0000.message".to_vec();
    let mut dir = Directory::new();
    dir.insert(temp_name(&name), b"half of an earlier wri".to_vec());
    for step in commit(&name, b"new".to_vec()) {
        take(&mut dir, &step);
    }
    assert_eq!(dir.get(&name), Some(&b"new".to_vec()));
    assert_eq!(dir.len(), 1);
}

#[test]
fn temporary_names() {
    assert_eq!(temp_name(b"0001.message"), b"0001.message.tmp".to_vec());
    assert_eq!(temp_name(b""), b".tmp".to_vec());
    assert!(!has_suffix(&temp_name(b"0001.message")));
    assert!(!has_suffix(&temp_name(b"x.message.message")));
}

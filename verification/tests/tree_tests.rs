use kernel::ahci::AHCIDrive;
use kernel::devices::{get_device, register_device, register_device_path};
use kernel::partition::{MBRPartitionTable, Partition};
use kernel::tree::{IterMutBF, Tree};

fn path(parts: &[&str]) -> Vec<String> {
    parts.iter().map(|p| p.to_string()).collect()
}

#[test]
fn new_tree_is_a_leaf() {
    let mut t: Tree<u32> = Tree::new(String::from("root"), Some(7));
    assert_eq!(t.value().copied(), Some(7));
    assert!(t.get_subtree(String::from("a")).is_none());
}

#[test]
fn insert_subtree_then_get_subtree() {
    let mut t: Tree<u32> = Tree::new(String::new(), None);
    t.insert_subtree(String::from("a"), Some(1));
    t.insert_subtree(String::from("b"), Some(2));
    assert_eq!(t.get_subtree(String::from("b")).unwrap().value().copied(), Some(2));
    assert_eq!(t.get_subtree(String::from("a")).unwrap().value().copied(), Some(1));
    assert!(t.get_subtree(String::from("c")).is_none());
}

#[test]
fn first_child_with_a_key_wins() {
    let mut t: Tree<u32> = Tree::new(String::new(), None);
    t.insert_subtree(String::from("a"), Some(1));
    t.insert_subtree(String::from("a"), Some(2));
    assert_eq!(t.get_subtree(String::from("a")).unwrap().value().copied(), Some(1));
}

#[test]
fn insert_node_by_path_creates_missing_nodes() {
    let mut t: Tree<u32> = Tree::new(String::new(), None);
    t.insert_node_by_path(path(&["Storage", "AHCI", "Drive0"]), Some(5));
    let storage = t.get_node_by_path(path(&["Storage"])).unwrap();
    assert!(storage.value().is_none());
    let ahci = t.get_node_by_path(path(&["Storage", "AHCI"])).unwrap();
    assert!(ahci.value().is_none());
    let drive = t.get_node_by_path(path(&["Storage", "AHCI", "Drive0"])).unwrap();
    assert_eq!(drive.value().copied(), Some(5));
}

#[test]
fn get_node_by_path_empty_path_is_root() {
    let mut t: Tree<u32> = Tree::new(String::from("root"), Some(9));
    assert_eq!(t.get_node_by_path(Vec::new()).unwrap().value().copied(), Some(9));
}

#[test]
fn get_node_by_path_missing_is_none() {
    let mut t: Tree<u32> = Tree::new(String::new(), None);
    t.insert_node_by_path(path(&["a", "b"]), Some(1));
    assert!(t.get_node_by_path(path(&["a", "c"])).is_none());
    assert!(t.get_node_by_path(path(&["x"])).is_none());
}

#[test]
fn value_can_be_changed_through_the_tree() {
    let mut t: Tree<u32> = Tree::new(String::new(), None);
    t.insert_node_by_path(path(&["a"]), Some(1));
    *t.get_node_by_path(path(&["a"])).unwrap().value().unwrap() = 10;
    assert_eq!(t.get_node_by_path(path(&["a"])).unwrap().value().copied(), Some(10));
}

#[test]
fn insert_then_get_law_example() {
    let mut t: Tree<&str> = Tree::new(String::new(), None);
    t.insert_node_by_path(path(&["System", "LAPIC"]), Some("lapic"));
    t.insert_node_by_path(path(&["System", "IOAPIC0"]), Some("ioapic"));
    assert_eq!(get_device(&mut t, path(&["System", "LAPIC"])), &mut "lapic");
    assert_eq!(get_device(&mut t, path(&["System", "IOAPIC0"])), &mut "ioapic");
}

#[test]
fn register_device_path_then_get_device() {
    let mut t: Tree<u64> = Tree::new(String::new(), None);
    register_device_path(&mut t, path(&["Power", "QemuExit"]), 0xf4);
    assert_eq!(*get_device(&mut t, path(&["Power", "QemuExit"])), 0xf4);
}

#[test]
fn register_partitions_at_their_paths() {
    let mut table = vec![0u8; 64];
    table[4] = 0x83;
    table[8..12].copy_from_slice(&100u32.to_le_bytes());
    table[12..16].copy_from_slice(&10u32.to_le_bytes());
    let drive = path(&["Devices", "Storage", "Drive0"]);
    let mut parts = MBRPartitionTable::read_table(&drive, &table);
    let mut t: Tree<Partition> = Tree::new(String::new(), None);
    assert!(register_device(&mut t, parts.remove(0)));
    let p = get_device(&mut t, path(&["Storage", "Drive0", "Partition0"]));
    assert_eq!(p.start_sector(), 100);
    assert!(t.get_node_by_path(path(&["Storage", "Drive0"])).unwrap().value().is_none());
}

fn walk_keys(t: &mut Tree<u32>) -> Vec<String> {
    let mut it: IterMutBF = t.iter_mut_bf();
    let mut keys = Vec::new();
    while let Some(pos) = it.next() {
        keys.push(t.node_at_mut(&pos).key().clone());
    }
    keys
}

#[test]
fn breadth_first_walk_goes_level_by_level_last_child_first() {
    let mut t: Tree<u32> = Tree::new(String::from("root"), None);
    t.insert_node_by_path(path(&["a"]), Some(1));
    t.insert_node_by_path(path(&["b"]), Some(2));
    t.insert_node_by_path(path(&["a", "a1"]), Some(3));
    t.insert_node_by_path(path(&["a", "a2"]), Some(4));
    t.insert_node_by_path(path(&["b", "b1"]), Some(5));
    assert_eq!(walk_keys(&mut t), vec!["root", "b", "a", "a2", "a1", "b1"]);
}

#[test]
fn breadth_first_walk_positions_and_end() {
    let mut t: Tree<u32> = Tree::new(String::from("root"), None);
    t.insert_subtree(String::from("x"), Some(1));
    t.insert_subtree(String::from("y"), Some(2));
    let mut it = t.iter_mut_bf();
    assert_eq!(it.next(), Some(vec![]));
    assert_eq!(it.next(), Some(vec![1]));
    assert_eq!(it.next(), Some(vec![0]));
    assert_eq!(it.next(), None);
    assert_eq!(it.next(), None);
}

#[test]
fn breadth_first_walk_of_a_single_node() {
    let mut t: Tree<u32> = Tree::new(String::from("only"), Some(3));
    assert_eq!(walk_keys(&mut t), vec!["only"]);
}

#[test]
fn values_can_be_changed_during_the_walk() {
    let mut t: Tree<u32> = Tree::new(String::from("root"), None);
    t.insert_node_by_path(path(&["d", "e"]), Some(10));
    t.insert_node_by_path(path(&["f"]), Some(20));
    let mut it = t.iter_mut_bf();
    while let Some(pos) = it.next() {
        if let Some(v) = t.node_at_mut(&pos).value() {
            *v += 1;
        }
    }
    assert_eq!(t.get_node_by_path(path(&["d", "e"])).unwrap().value().copied(), Some(11));
    assert_eq!(t.get_node_by_path(path(&["f"])).unwrap().value().copied(), Some(21));
    assert!(t.get_node_by_path(path(&["d"])).unwrap().value().is_none());
}

#[test]
fn register_a_drive_at_its_path() {
    let mut t: Tree<AHCIDrive> = Tree::new(String::new(), None);
    assert!(register_device(&mut t, AHCIDrive::new(2)));
    let d = get_device(&mut t, path(&["Storage", "AHCI", "Drive2"]));
    assert_eq!(d.offset(), 0);
    assert!(t.get_node_by_path(path(&["Storage", "AHCI"])).unwrap().value().is_none());
}

use vstd::prelude::*;
use crate::tree::{Tree, inserted, node_at, path_keys, replaced};

verus! {

/// A device that knows where it belongs in the device tree.
pub trait Device {
    /// Whether the device can name its path.
    spec fn has_device_path(&self) -> bool;

    /// The keys of the device's path in the device tree, one per level.
    spec fn spec_device_path(&self) -> Seq<Seq<char>>;

    /// The path of the device in the device tree, one key per level.
    fn device_path(&self) -> (p: Vec<String>)
        requires
            self.has_device_path(),
        ensures
            path_keys(p@) == self.spec_device_path(),
    ;
}

/// Registers `device` at `path` in `tree`: the missing nodes along the path
/// are added without a device, and a node holding `device` is added under the
/// last of them.
pub fn register_device_path<V>(tree: &mut Tree<V>, path: Vec<String>, device: V)
    requires
        path@.len() >= 1,
    ensures
        inserted(
            old(tree).spec_key(),
            old(tree).spec_value(),
            old(tree).children(),
            *final(tree),
            path_keys(path@),
            Some(device),
        ),
{
    tree.insert_node_by_path(path, Some(device));
}

/// Registers `device` at the path it reports.  A device that reports an
/// empty path is not registered: the result says whether it was.
pub fn register_device<D: Device>(tree: &mut Tree<D>, device: D) -> (registered: bool)
    requires
        device.has_device_path(),
    ensures
        registered == (device.spec_device_path().len() >= 1),
        !registered ==> *final(tree) == *old(tree),
        registered ==> inserted(
            old(tree).spec_key(),
            old(tree).spec_value(),
            old(tree).children(),
            *final(tree),
            device.spec_device_path(),
            Some(device),
        ),
{
    let path = device.device_path();
    if path.len() == 0 {
        return false;
    }
    register_device_path(tree, path, device);
    true
}

/// The device registered at `path`.
pub fn get_device<V>(tree: &mut Tree<V>, path: Vec<String>) -> (device: &mut V)
    requires
        node_at(*old(tree), path_keys(path@)) matches Some(n) && n.spec_value() is Some,
    ensures
        node_at(*old(tree), path_keys(path@)) matches Some(n) && n.spec_value() == Some(*device),
        exists|sub: Tree<V>|
            replaced(*old(tree), *final(tree), path_keys(path@), sub) && sub.spec_key()
                == node_at(*old(tree), path_keys(path@))->Some_0.spec_key() && sub.children()
                == node_at(*old(tree), path_keys(path@))->Some_0.children() && sub.spec_value()
                == Some(*final(device)),
{
    let node = tree.get_node_by_path(path).unwrap();
    node.value().unwrap()
}

} // verus!

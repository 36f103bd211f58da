use vstd::prelude::*;
use crate::wide::decode_wide;
use crate::wide::wide_text;

verus! {

/// A mounted volume: where it is mounted and its label.
#[derive(Debug, Clone)]
pub struct Volume {
    pub mount_point: String,
    pub volume_label: String,
}

/// The volumes of the system from the wide buffers the system filled for
/// each of them, in order: the first buffer of a pair holds the mount point,
/// the second the label.
pub fn list_volumes(raw: &Vec<(Vec<u16>, Vec<u16>)>) -> (volumes: Vec<Volume>)
    ensures
        volumes@.len() == raw@.len(),
        forall|i: int|
            0 <= i < raw@.len() ==> {
                &&& (#[trigger] volumes@[i]).mount_point@ == wide_text(raw@[i].0@)
                &&& volumes@[i].volume_label@ == wide_text(raw@[i].1@)
            },
{
    let mut volumes: Vec<Volume> = Vec::new();
    for i in 0..raw.len()
        invariant
            volumes@.len() == i,
            forall|j: int|
                0 <= j < i ==> {
                    &&& (#[trigger] volumes@[j]).mount_point@ == wide_text(raw@[j].0@)
                    &&& volumes@[j].volume_label@ == wide_text(raw@[j].1@)
                },
    {
        let mount_point = decode_wide(raw[i].0.as_slice());
        let volume_label = decode_wide(raw[i].1.as_slice());
        volumes.push(Volume { mount_point, volume_label });
    }
    volumes
}

} // verus!

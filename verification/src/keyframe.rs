use vstd::prelude::*;

verus! {

/// A point of the key-frame map: the sample `from` of the input is to come
/// out at the sample `to` of the output.
#[derive(Debug, Clone, Copy, PartialEq, Eq, Structural)]
pub struct KeyFrame {
    pub from: u32,
    pub to: u32,
}

/// The input positions of the key frames, in their order.
pub open spec fn from_column(keyframes: Seq<KeyFrame>) -> Seq<u32> {
    Seq::new(keyframes.len(), |i: int| keyframes[i].from)
}

/// The output positions of the key frames, in their order.
pub open spec fn to_column(keyframes: Seq<KeyFrame>) -> Seq<u32> {
    Seq::new(keyframes.len(), |i: int| keyframes[i].to)
}

impl KeyFrame {
    pub fn new(from: u32, to: u32) -> (keyframe: KeyFrame)
        ensures
            keyframe == (KeyFrame { from, to }),
    {
        KeyFrame { from, to }
    }

    /// The key frames as the engine takes them: all input positions, then
    /// all output positions, each in the order of the key frames.
    pub fn columns(keyframes: &[KeyFrame]) -> (columns: (Vec<u32>, Vec<u32>))
        ensures
            columns.0@ == from_column(keyframes@),
            columns.1@ == to_column(keyframes@),
    {
        let mut from: Vec<u32> = Vec::new();
        let mut to: Vec<u32> = Vec::new();
        let mut i: usize = 0;
        while i < keyframes.len()
            invariant
                i <= keyframes@.len(),
                from@.len() == i,
                to@.len() == i,
                forall|k: int| 0 <= k < i ==> from@[k] == keyframes@[k].from,
                forall|k: int| 0 <= k < i ==> to@[k] == keyframes@[k].to,
            decreases keyframes@.len() - i,
        {
            from.push(keyframes[i].from);
            to.push(keyframes[i].to);
            i += 1;
        }
        assert(from@ =~= from_column(keyframes@));
        assert(to@ =~= to_column(keyframes@));
        (from, to)
    }
}

} // verus!

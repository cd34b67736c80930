//! Frames: the variables of a scope, with the frame of the scope around it.
use vstd::hash_map::StringHashMap;
use vstd::prelude::*;

verus! {

/// The variables of one scope. A name that is not found here is looked up
/// in the parent frame.
#[verifier::reject_recursive_types(V)]
pub struct Frame<'a, V> {
    pub children: Vec<Frame<'a, V>>,
    pub parent_frame: Option<&'a Frame<'a, V>>,
    pub variables: StringHashMap<V>,
}

impl<'a, V> Frame<'a, V> {
    /// The value that `name` has in this frame or, failing that, in the
    /// nearest frame around it that holds the name.
    pub open spec fn lookup(&self, name: Seq<char>) -> Option<V>
        decreases self,
    {
        if self.variables@.contains_key(name) {
            Some(self.variables@[name])
        } else {
            match self.parent_frame {
                Some(parent) => parent.lookup(name),
                None => None,
            }
        }
    }

    /// A frame without variables inside `parent_frame`.
    pub fn new(parent_frame: Option<&'a Frame<'a, V>>) -> (r: Self)
        ensures
            r.parent_frame == parent_frame,
            r.variables@ == Map::<Seq<char>, V>::empty(),
            r.children@.len() == 0,
    {
        Frame { parent_frame, variables: StringHashMap::new(), children: Vec::new() }
    }

    /// Looks `name` up in this frame and then in the frames around it, from
    /// the nearest outwards.
    pub fn find_variable(&self, name: &str) -> (r: Option<&V>)
        ensures
            match r {
                Some(value) => self.lookup(name@) == Some(*value),
                None => self.lookup(name@) is None,
            },
    {
        let mut frame: &Frame<'a, V> = self;
        loop
            invariant
                frame.lookup(name@) == self.lookup(name@),
            decreases frame,
        {
            match frame.variables.get(name) {
                Some(value) => {
                    return Some(value);
                },
                None => match frame.parent_frame {
                    Some(parent) => {
                        frame = parent;
                    },
                    None => {
                        return None;
                    },
                },
            }
        }
    }
}

} // verus!

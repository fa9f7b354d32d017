use vstd::prelude::*;

verus! {

/// A captured frame as the compositor describes it: its geometry, its pixel
/// format tag, and for each memory object the descriptor and byte size.
#[derive(Debug, PartialEq, Eq)]
pub struct Object {
    pub width: u32,
    pub height: u32,
    pub num_objects: u32,
    pub format: u32,
    pub fds: Vec<i32>,
    pub sizes: Vec<u32>,
}

impl Object {
    /// A frame of `num_objects` memory objects, none of them filled in yet.
    pub fn new(width: u32, height: u32, num_objects: u32, format: u32) -> (frame: Self)
        ensures
            frame.width == width,
            frame.height == height,
            frame.num_objects == num_objects,
            frame.format == format,
            frame.fds@ == Seq::new(num_objects as nat, |i: int| 0i32),
            frame.sizes@ == Seq::new(num_objects as nat, |i: int| 0u32),
    {
        let mut fds: Vec<i32> = Vec::new();
        let mut sizes: Vec<u32> = Vec::new();
        let mut i: u32 = 0;
        while i < num_objects
            invariant
                i <= num_objects,
                fds@ == Seq::new(i as nat, |k: int| 0i32),
                sizes@ == Seq::new(i as nat, |k: int| 0u32),
            decreases num_objects - i,
        {
            fds.push(0);
            sizes.push(0);
            i += 1;
        }
        Self { width, height, num_objects, format, fds, sizes }
    }

    /// Records descriptor and size of the memory object at `index`.
    pub fn set_object(&mut self, index: u32, fd: i32, size: u32)
        requires
            index < old(self).fds.len(),
            index < old(self).sizes.len(),
        ensures
            final(self).fds@ == old(self).fds@.update(index as int, fd),
            final(self).sizes@ == old(self).sizes@.update(index as int, size),
            final(self).width == old(self).width,
            final(self).height == old(self).height,
            final(self).num_objects == old(self).num_objects,
            final(self).format == old(self).format,
    {
        self.fds.set(index as usize, fd);
        self.sizes.set(index as usize, size);
    }
}

} // verus!

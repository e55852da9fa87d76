//! The stack of saved device states: last in, first out.
use vstd::prelude::*;

use super::{StackDevice, StackEntry, Store, StoreError};

verus! {

/// An equal copy of a stack entry.
pub fn copy_entry(e: &StackEntry) -> (r: StackEntry)
    ensures
        r == *e,
{
    StackEntry { position: e.position, layers: e.layers.clone(), device: e.device, pushed_at: e.pushed_at }
}

impl Store {
    /// Only the stack differs between `self` and `other`.
    pub open spec fn same_but_stack(&self, other: &Store) -> bool {
        &&& self.zones == other.zones
        &&& self.effects == other.effects
        &&& self.scenes == other.scenes
        &&& self.layers == other.layers
    }

    /// Push a state (the JSON list of its layers and the device settings)
    /// stamped `pushed_at`. It gets the next position; `Db`, and no change,
    /// once positions are exhausted.
    pub fn push_state(&mut self, layers: &str, device: &StackDevice, pushed_at: i64) -> (r:
        Result<(), StoreError>)
        requires
            old(self).wf(),
        ensures
            final(self).wf(),
            final(self).same_but_stack(old(self)),
            old(self).next_stack_position == i64::MAX ==> r == Err::<(), StoreError>(StoreError::Db)
                && *final(self) == *old(self),
            old(self).next_stack_position < i64::MAX ==> {
                &&& r is Ok
                &&& final(self).next_stack_position == old(self).next_stack_position + 1
                &&& final(self).stack@.len() == old(self).stack@.len() + 1
                &&& final(self).stack@.drop_last() == old(self).stack@
                &&& final(self).stack@.last().position == old(self).next_stack_position
                &&& final(self).stack@.last().layers@ == layers@
                &&& final(self).stack@.last().device == *device
                &&& final(self).stack@.last().pushed_at == pushed_at
            },
    {
        if self.next_stack_position == i64::MAX {
            return Err(StoreError::Db);
        }
        let entry = StackEntry {
            position: self.next_stack_position,
            layers: layers.to_owned(),
            device: *device,
            pushed_at,
        };
        self.stack.push(entry);
        self.next_stack_position = self.next_stack_position + 1;
        assert(self.stack@.drop_last() =~= old(self).stack@);
        Ok(())
    }

    /// Take the most recently pushed state off the stack; `None` when empty.
    pub fn pop_state(&mut self) -> (r: Result<Option<StackEntry>, StoreError>)
        requires
            old(self).wf(),
        ensures
            final(self).wf(),
            final(self).same_but_stack(old(self)),
            final(self).next_stack_position == old(self).next_stack_position,
            old(self).stack@.len() == 0 ==> r == Ok::<Option<StackEntry>, StoreError>(None)
                && *final(self) == *old(self),
            old(self).stack@.len() > 0 ==> r == Ok::<Option<StackEntry>, StoreError>(
                Some(old(self).stack@.last()),
            ) && final(self).stack@ == old(self).stack@.drop_last(),
    {
        if self.stack.len() == 0 {
            return Ok(None);
        }
        match self.stack.pop() {
            None => Ok(None),
            Some(e) => Ok(Some(e)),
        }
    }

    /// The most recently pushed state, left on the stack; `None` when empty.
    pub fn peek_state(&self) -> (r: Result<Option<StackEntry>, StoreError>)
        ensures
            self.stack@.len() == 0 ==> r == Ok::<Option<StackEntry>, StoreError>(None),
            self.stack@.len() > 0 ==> r == Ok::<Option<StackEntry>, StoreError>(
                Some(self.stack@.last()),
            ),
    {
        let n = self.stack.len();
        if n == 0 {
            Ok(None)
        } else {
            Ok(Some(copy_entry(&self.stack[n - 1])))
        }
    }

    /// Every saved state, most recent first.
    pub fn list_state_stack(&self) -> (r: Result<Vec<StackEntry>, StoreError>)
        ensures
            r matches Ok(v) && v@ == self.stack@.reverse(),
    {
        let n = self.stack.len();
        let mut out: Vec<StackEntry> = Vec::new();
        let mut i: usize = 0;
        while i < n
            invariant
                n == self.stack@.len(),
                i <= n,
                out@ =~= self.stack@.reverse().take(i as int),
            decreases n - i,
        {
            out.push(copy_entry(&self.stack[n - 1 - i]));
            i = i + 1;
        }
        assert(self.stack@.reverse().take(n as int) =~= self.stack@.reverse());
        Ok(out)
    }

    /// How many states are saved.
    pub fn state_stack_depth(&self) -> (r: Result<u32, StoreError>)
        ensures
            r == Ok::<u32, StoreError>(self.stack@.len() as u32),
    {
        Ok(#[verifier::truncate] (self.stack.len() as u32))
    }

    /// Drop every saved state. Positions already given out are not reused.
    pub fn clear_state_stack(&mut self) -> (r: Result<(), StoreError>)
        requires
            old(self).wf(),
        ensures
            final(self).wf(),
            final(self).same_but_stack(old(self)),
            r is Ok,
            final(self).stack@.len() == 0,
            final(self).next_stack_position == old(self).next_stack_position,
    {
        self.stack = Vec::new();
        Ok(())
    }
}

} // verus!

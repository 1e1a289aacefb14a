//! The player: the movements that wait to be made, first in first out, and the side the player
//! faces. A movement is whatever the front end moves the player by; the queue only keeps them.
use std::collections::VecDeque;
use vstd::prelude::*;

verus! {

/// The player's queue of movements and the side the player faces.
#[derive(Clone)]
pub struct Player<M> {
    movement_queue: VecDeque<M>,
    facing_left: bool,
}

impl<M> Player<M> {
    /// The movements that wait, the next one first.
    pub closed spec fn queue(self) -> Seq<M> {
        self.movement_queue@
    }

    /// Whether the player faces left.
    pub closed spec fn faces_left(self) -> bool {
        self.facing_left
    }

    ///
    /// Create a new player
    pub fn new() -> (r: Self)
        ensures
            r.queue() == Seq::<M>::empty(),
            !r.faces_left(),
    {
        Player { movement_queue: VecDeque::new(), facing_left: false }
    }

    ///
    /// Get the next movement that is enqueued
    pub fn peek_movement_queue(&self) -> (r: Option<&M>)
        ensures
            r == (if self.queue().len() > 0 {
                Some(&self.queue()[0])
            } else {
                None
            }),
    {
        if self.movement_queue.len() > 0 {
            Some(&self.movement_queue[0])
        } else {
            None
        }
    }

    ///
    /// Push a movement to the movement queue
    pub fn push_movement_queue(&mut self, movement: M) -> (r: &mut Self)
        ensures
            r.queue() == old(self).queue().push(movement),
            r.faces_left() == old(self).faces_left(),
            *final(self) == *final(r),
    {
        self.movement_queue.push_back(movement);
        self
    }

    ///
    /// Remove the front of the movement queue and return the element
    pub fn pop_movement_queue(&mut self) -> (r: Option<M>)
        ensures
            old(self).queue().len() == 0 ==> r is None && final(self).queue() == old(self).queue(),
            old(self).queue().len() > 0 ==> r == Some(old(self).queue()[0]) && final(self).queue()
                == old(self).queue().drop_first(),
            final(self).faces_left() == old(self).faces_left(),
    {
        self.movement_queue.pop_front()
    }

    ///
    /// Remove all elements of the movement queue.
    pub fn clear_movement_queue(&mut self)
        ensures
            final(self).queue() == Seq::<M>::empty(),
            final(self).faces_left() == old(self).faces_left(),
    {
        self.movement_queue.clear()
    }

    ///
    /// Get the atlas index of the player sprite facing right.
    pub fn atlas_index_right() -> (r: usize)
        ensures
            r == 255,
    {
        255
    }

    ///
    /// Get the atlas index of the player sprite facing left.
    pub fn atlas_index_left() -> (r: usize)
        ensures
            r == 249,
    {
        249
    }

    ///
    /// Get the atlas index facing in the correct direction
    pub fn atlas_index(&self) -> (r: usize)
        ensures
            r == (if self.faces_left() {
                249usize
            } else {
                255usize
            }),
    {
        if self.facing_left {
            Player::<M>::atlas_index_left()
        } else {
            Player::<M>::atlas_index_right()
        }
    }

    ///
    /// Set if the player is facing right
    pub fn set_face_right(&mut self, right: bool)
        ensures
            final(self).faces_left() == !right,
            final(self).queue() == old(self).queue(),
    {
        self.facing_left = !right;
    }

    ///
    /// Check if the player is facing right
    pub fn is_facing_right(&self) -> (r: bool)
        ensures
            r == !self.faces_left(),
    {
        !self.facing_left
    }

    ///
    /// Check if the movement queue is empty
    pub fn movement_queue_is_empty(&self) -> (r: bool)
        ensures
            r == (self.queue().len() == 0),
    {
        self.movement_queue.len() == 0
    }
}

} // verus!

//! SharedFrameSlot: a single-slot, overwrite-on-write, cross-thread hand-off
//! of the latest captured frame. One producer publishes whole frames under
//! exclusive access; an independently scheduled consumer takes a copy at its
//! own pace, and is told "no frame available" instead of waiting when a
//! publish is in flight.

use vstd::prelude::*;

verus! {

#[verifier::external_type_specification]
#[verifier::external_body]
#[verifier::reject_recursive_types(T)]
pub struct ExStdRwLock<T: ?Sized>(std::sync::RwLock<T>);

/// Relies on std::sync::RwLock::new: wraps the buffer in a fresh
/// reader-writer lock.
#[verifier::external_body]
fn lock_new(buffer: Vec<u8>) -> std::sync::RwLock<Vec<u8>> {
    std::sync::RwLock::new(buffer)
}

/// Relies on std::sync::RwLock::try_read: takes shared access without
/// blocking and hands out a copy of the buffer, or nothing when the access
/// cannot be granted at once (a writer holds the lock, or it is poisoned).
/// What the buffer holds depends on what other threads last wrote, so
/// nothing is promised of the returned bytes.
#[verifier::external_body]
fn lock_try_read_clone(lock: &std::sync::RwLock<Vec<u8>>) -> Option<Vec<u8>> {
    match lock.try_read() {
        Ok(guard) => Some(guard.clone()),
        Err(_) => None,
    }
}

/// Relies on std::sync::RwLock::write: under exclusive access, replaces the
/// buffer's whole contents with the frame's bytes as a clear-then-append
/// sequence, so no reader can observe a partial overwrite. A poisoned lock
/// (a thread panicked while holding it) drops the publish instead of
/// panicking.
#[verifier::external_body]
fn lock_write_replace(lock: &std::sync::RwLock<Vec<u8>>, frame: &Vec<u8>) {
    if let Ok(mut guard) = lock.write() {
        guard.clear();
        guard.extend_from_slice(frame);
    }
}

/// A single frame-sized buffer with exclusive write access and shared,
/// non-blocking read access, created once per capture session and never
/// resized.
pub struct SharedFrameSlot {
    size: usize,
    lock: std::sync::RwLock<Vec<u8>>,
}

impl SharedFrameSlot {
    /// The fixed frame size, set at construction.
    pub closed spec fn size_spec(self) -> nat {
        self.size as nat
    }

    /// A slot of the given frame size, holding an all-zero frame until the
    /// first publish.
    pub fn new(size: usize) -> (s: SharedFrameSlot)
        ensures
            s.size_spec() == size,
    {
        let mut buffer: Vec<u8> = Vec::new();
        let mut i: usize = 0;
        while i < size
            invariant
                i <= size,
                buffer@.len() == i,
            decreases size - i,
        {
            buffer.push(0);
            i += 1;
        }
        SharedFrameSlot { size, lock: lock_new(buffer) }
    }

    /// The frame size the slot was created with.
    pub fn size(&self) -> (n: usize)
        ensures
            n == self.size_spec(),
    {
        self.size
    }

    /// Replaces the slot's contents with this frame, as a whole, under
    /// exclusive access: a reader sees the previous frame or this one in
    /// full, never a mixture. Every publish writes exactly one frame of the
    /// configured size, so the buffer keeps that size for the slot's life.
    pub fn publish(&self, frame: &Vec<u8>)
        requires
            frame@.len() == self.size_spec(),
    {
        lock_write_replace(&self.lock, frame);
    }

    /// What a reader hands on from the lock's answer: a buffer of the
    /// configured frame size passes through whole and unchanged; no answer,
    /// or a buffer of any other size — which no publish of this slot
    /// produces — yields nothing.
    pub fn accept_read(&self, got: Option<Vec<u8>>) -> (r: Option<Vec<u8>>)
        ensures
            got matches Some(frame) && frame@.len() == self.size_spec() ==> r == got,
            got matches Some(frame) && frame@.len() != self.size_spec() ==> r is None,
            got is None ==> r is None,
            r matches Some(frame) ==> frame@.len() == self.size_spec(),
    {
        match got {
            Some(frame) => {
                if frame.len() == self.size {
                    Some(frame)
                } else {
                    None
                }
            },
            None => None,
        }
    }

    /// Attempts to take a copy of the slot's current contents without
    /// blocking: nothing is returned while a writer holds exclusive access
    /// (the consumer skips its tick instead of stalling), and a returned
    /// frame is complete and of the configured size. The lock's answer is
    /// passed through `accept_read`, whose contract fixes exactly what is
    /// handed on.
    pub fn try_read(&self) -> (r: Option<Vec<u8>>)
        ensures
            r matches Some(frame) ==> frame@.len() == self.size_spec(),
    {
        let got = lock_try_read_clone(&self.lock);
        self.accept_read(got)
    }
}

} // verus!

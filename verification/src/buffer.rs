//! A byte buffer of fixed capacity that takes what fits and no more.

use vstd::prelude::*;

verus! {

/// How many of `incoming` bytes a buffer that holds `held` of at most
/// `capacity` bytes takes: all of them, or as many as there is room for.
pub open spec fn accepted(held: nat, capacity: nat, incoming: nat) -> nat {
    if held >= capacity {
        0
    } else if incoming <= capacity - held {
        incoming
    } else {
        (capacity - held) as nat
    }
}

/// The contents after `incoming` was offered to a buffer that held `held`.
pub open spec fn stored(held: Seq<u8>, capacity: nat, incoming: Seq<u8>) -> Seq<u8> {
    held + incoming.take(accepted(held.len(), capacity, incoming.len()) as int)
}

/// Storing never takes the contents past the capacity, keeps what was
/// held, and adds a prefix of what was offered; it adds all of it exactly
/// when all of it fits.
pub proof fn stored_stays_within_capacity(held: Seq<u8>, capacity: nat, incoming: Seq<u8>)
    requires
        held.len() <= capacity,
    ensures
        stored(held, capacity, incoming).len() <= capacity,
        stored(held, capacity, incoming).len() == held.len() + accepted(
            held.len(),
            capacity,
            incoming.len(),
        ),
        held.is_prefix_of(stored(held, capacity, incoming)),
        stored(held, capacity, incoming).is_prefix_of(held + incoming),
        stored(held, capacity, incoming) == held + incoming <==> held.len() + incoming.len()
            <= capacity,
        held.len() + incoming.len() > capacity ==> stored(held, capacity, incoming).len()
            == capacity,
{
    if held.len() + incoming.len() <= capacity {
        assert(incoming.take(incoming.len() as int) == incoming);
    }
}

/// A buffer whose size was fixed when it was made.
pub struct ResponseBuffer {
    data: Vec<u8>,
    capacity: usize,
}

impl View for ResponseBuffer {
    type V = Seq<u8>;

    closed spec fn view(&self) -> Seq<u8> {
        self.data@
    }
}

impl ResponseBuffer {
    #[verifier::type_invariant]
    spec fn within_capacity(self) -> bool {
        self.data.len() <= self.capacity
    }

    /// The capacity the buffer was made with.
    pub closed spec fn limit(&self) -> nat {
        self.capacity as nat
    }

    /// An empty buffer that holds at most `capacity` bytes.
    pub fn with_capacity(capacity: usize) -> (buffer: Self)
        ensures
            buffer@ == Seq::<u8>::empty(),
            buffer.limit() == capacity,
    {
        ResponseBuffer { data: Vec::new(), capacity }
    }

    /// The most bytes the buffer can hold.
    pub fn capacity(&self) -> (capacity: usize)
        ensures
            capacity == self.limit(),
    {
        self.capacity
    }

    /// Number of bytes held, never more than the capacity.
    pub fn len(&self) -> (len: usize)
        ensures
            len == self@.len(),
            len <= self.limit(),
    {
        proof {
            use_type_invariant(self);
        }
        self.data.len()
    }

    /// The bytes held, oldest first.
    pub fn bytes(&self) -> (bytes: &[u8])
        ensures
            bytes@ == self@,
            bytes@.len() <= self.limit(),
    {
        proof {
            use_type_invariant(self);
        }
        self.data.as_slice()
    }

    /// Appends as much of `incoming` as there is room for, from its start,
    /// and returns how many bytes that was.
    pub fn store(&mut self, incoming: &[u8]) -> (taken: usize)
        ensures
            final(self).limit() == old(self).limit(),
            final(self)@ == stored(old(self)@, old(self).limit(), incoming@),
            taken == accepted(old(self)@.len(), old(self).limit(), incoming@.len()),
            final(self)@.len() <= final(self).limit(),
    {
        proof {
            use_type_invariant(&*self);
        }
        let room = self.capacity - self.data.len();
        let taken = if incoming.len() <= room {
            incoming.len()
        } else {
            room
        };
        let mut data: Vec<u8> = Vec::new();
        std::mem::swap(&mut self.data, &mut data);
        let mut i: usize = 0;
        while i < taken
            invariant
                i <= taken <= incoming@.len(),
                data@ == old(self).data@ + incoming@.take(i as int),
            decreases taken - i,
        {
            data.push(incoming[i]);
            i += 1;
        }
        std::mem::swap(&mut self.data, &mut data);
        taken
    }
}

} // verus!

use vstd::prelude::*;

verus! {

/// The largest payload a classic CAN frame carries, in bytes.
pub const MAX_PAYLOAD: usize = 8;

/// A CAN identifier, in the bus's native representation.
///
/// A standard identifier has 11 bits, an extended one 29. The two kinds are
/// distinct values even when they are numerically equal.
#[derive(Clone, Copy, Debug, PartialEq, Eq, Structural, Hash)]
pub enum CanId {
    Standard(u16),
    Extended(u32),
}

impl CanId {
    /// The numeric value of the identifier, without its standard/extended flag.
    pub open spec fn value(self) -> u32 {
        match self {
            CanId::Standard(v) => v as u32,
            CanId::Extended(v) => v,
        }
    }

    /// The identifier fits its kind: 11 bits for standard, 29 for extended.
    pub open spec fn is_valid(self) -> bool {
        match self {
            CanId::Standard(v) => v <= 0x7FF,
            CanId::Extended(v) => v <= 0x1FFF_FFFF,
        }
    }

    /// Whether the identifier fits its kind: 11 bits for standard, 29 for extended.
    pub fn check_valid(&self) -> (r: bool)
        ensures
            r == self.is_valid(),
    {
        match self {
            CanId::Standard(v) => *v <= 0x7FF,
            CanId::Extended(v) => *v <= 0x1FFF_FFFF,
        }
    }

    /// The numeric value of the identifier, without its standard/extended flag.
    pub fn as_raw(&self) -> (r: u32)
        ensures
            r == self.value(),
    {
        match self {
            CanId::Standard(v) => *v as u32,
            CanId::Extended(v) => *v,
        }
    }

    pub fn is_extended(&self) -> (r: bool)
        ensures
            r == (*self is Extended),
    {
        match self {
            CanId::Standard(_) => false,
            CanId::Extended(_) => true,
        }
    }
}

/// A received CAN frame, as the capture engine sees it: an identifier, a
/// data length code, a remote-request flag and up to eight payload bytes.
#[derive(Clone, Copy, Debug)]
pub struct CanFrame {
    id: CanId,
    remote: bool,
    dlc: usize,
    data: [u8; 8],
}

impl CanFrame {
    #[verifier::type_invariant]
    spec fn well_formed(self) -> bool {
        &&& self.id.is_valid()
        &&& self.dlc <= MAX_PAYLOAD
    }

    pub closed spec fn spec_id(self) -> CanId {
        self.id
    }

    pub closed spec fn spec_remote(self) -> bool {
        self.remote
    }

    pub closed spec fn spec_dlc(self) -> nat {
        self.dlc as nat
    }

    /// The payload bytes: none for a remote frame, else the first `dlc` bytes.
    pub closed spec fn payload(self) -> Seq<u8> {
        if self.remote {
            Seq::empty()
        } else {
            self.data@.take(self.dlc as int)
        }
    }

    /// A data frame carrying `data`; `None` when `id` does not fit its kind
    /// or `data` holds more than eight bytes.
    pub fn new(id: CanId, data: &[u8]) -> (r: Option<CanFrame>)
        ensures
            r is Some <==> data@.len() <= MAX_PAYLOAD && id.is_valid(),
            r matches Some(f) ==> {
                &&& f.spec_id() == id
                &&& !f.spec_remote()
                &&& f.spec_dlc() == data@.len()
                &&& f.payload() == data@
            },
    {
        if data.len() > MAX_PAYLOAD || !id.check_valid() {
            return None;
        }
        let mut buf: [u8; 8] = [0u8; 8];
        let mut i: usize = 0;
        while i < data.len()
            invariant
                i <= data@.len() <= MAX_PAYLOAD,
                buf@.len() == MAX_PAYLOAD,
                buf@.take(i as int) == data@.take(i as int),
            decreases data@.len() - i,
        {
            buf[i] = data[i];
            i = i + 1;
            assert(buf@.take(i as int) =~= data@.take(i as int));
        }
        assert(data@.take(i as int) =~= data@);
        Some(CanFrame { id, remote: false, dlc: data.len(), data: buf })
    }

    /// A remote-request frame asking for `dlc` bytes; `None` when `id` does
    /// not fit its kind or `dlc` exceeds eight.
    pub fn new_remote(id: CanId, dlc: usize) -> (r: Option<CanFrame>)
        ensures
            r is Some <==> dlc <= MAX_PAYLOAD && id.is_valid(),
            r matches Some(f) ==> {
                &&& f.spec_id() == id
                &&& f.spec_remote()
                &&& f.spec_dlc() == dlc
                &&& f.payload() == Seq::<u8>::empty()
            },
    {
        if dlc > MAX_PAYLOAD || !id.check_valid() {
            return None;
        }
        Some(CanFrame { id, remote: true, dlc, data: [0u8; 8] })
    }

    pub fn id(&self) -> (r: CanId)
        ensures
            r == self.spec_id(),
            r.is_valid(),
    {
        proof {
            use_type_invariant(self);
        }
        self.id
    }

    /// The numeric identifier, without its standard/extended flag.
    pub fn raw_id(&self) -> (r: u32)
        ensures
            r == self.spec_id().value(),
            self.spec_id().is_valid(),
    {
        proof {
            use_type_invariant(self);
        }
        self.id.as_raw()
    }

    pub fn is_extended(&self) -> (r: bool)
        ensures
            r == (self.spec_id() is Extended),
    {
        self.id.is_extended()
    }

    pub fn is_remote_frame(&self) -> (r: bool)
        ensures
            r == self.spec_remote(),
    {
        self.remote
    }

    pub fn dlc(&self) -> (r: usize)
        ensures
            r == self.spec_dlc(),
            r <= MAX_PAYLOAD,
    {
        proof {
            use_type_invariant(self);
        }
        self.dlc
    }

    /// A copy of the payload bytes.
    pub fn data(&self) -> (r: Vec<u8>)
        ensures
            r@ == self.payload(),
    {
        proof {
            use_type_invariant(self);
        }
        let mut out: Vec<u8> = Vec::new();
        if self.remote {
            return out;
        }
        let mut i: usize = 0;
        while i < self.dlc
            invariant
                i <= self.dlc <= MAX_PAYLOAD,
                self.data@.len() == MAX_PAYLOAD,
                out@ == self.data@.take(i as int),
            decreases self.dlc - i,
        {
            out.push(self.data[i]);
            i = i + 1;
            assert(out@ =~= self.data@.take(i as int));
        }
        out
    }
}

} // verus!

//! A frame of the vehicle bus, held as plain values.

use vstd::prelude::*;

verus! {

/// Most payload bytes that one frame carries.
pub const MAX_PAYLOAD: usize = 8;

/// Largest identifier of a standard frame.
pub const MAX_STANDARD_ID: u16 = 0x7FF;

/// What a frame says on the bus: its identifier and the payload bytes that
/// its declared length covers.
pub struct BusFrame {
    pub id: u16,
    pub payload: Seq<u8>,
}

impl BusFrame {
    /// The identifier is a standard one and the payload fits one frame.
    pub open spec fn wf(self) -> bool {
        &&& self.id <= MAX_STANDARD_ID
        &&& self.payload.len() <= MAX_PAYLOAD
    }

    /// The payload followed by zeros up to the full eight bytes.
    pub open spec fn padded(self) -> Seq<u8> {
        Seq::new(
            MAX_PAYLOAD as nat,
            |k: int|
                if k < self.payload.len() {
                    self.payload[k]
                } else {
                    0u8
                },
        )
    }
}

/// A standard data frame: identifier, payload and declared length.
#[derive(Debug, Copy, Clone)]
pub struct CanFrame {
    id: u16,
    data: [u8; MAX_PAYLOAD],
    _len: usize,
}

impl View for CanFrame {
    type V = BusFrame;

    closed spec fn view(&self) -> BusFrame {
        BusFrame { id: self.id, payload: self.data@.take(self._len as int) }
    }
}

impl CanFrame {
    /// The declared length fits the frame, the bytes past it are zero, and
    /// the identifier is a standard one.
    #[verifier::type_invariant]
    closed spec fn inv(self) -> bool {
        &&& self.id <= MAX_STANDARD_ID
        &&& self._len <= MAX_PAYLOAD
        &&& forall|k: int| self._len <= k < MAX_PAYLOAD ==> self.data@[k] == 0
    }

    /// The frame with identifier `id` that carries the bytes of `data`.
    pub fn new(id: u16, data: &[u8]) -> (frame: CanFrame)
        requires
            id <= MAX_STANDARD_ID,
            data@.len() <= MAX_PAYLOAD,
        ensures
            frame@.id == id,
            frame@.payload == data@,
            frame@.wf(),
    {
        let mut frame_data = [0u8; MAX_PAYLOAD];
        let _len: usize = data.len();
        let mut k: usize = 0;
        while k < _len
            invariant
                k <= _len,
                _len == data@.len(),
                _len <= MAX_PAYLOAD,
                forall|j: int| 0 <= j < k ==> frame_data@[j] == data@[j],
                forall|j: int| k <= j < MAX_PAYLOAD ==> frame_data@[j] == 0,
            decreases _len - k,
        {
            frame_data[k] = data[k];
            k = k + 1;
        }
        let frame = CanFrame { id, data: frame_data, _len };
        assert(frame@.payload =~= data@);
        frame
    }

    /// The payload, followed by zeros up to eight bytes.
    pub fn bytes(&self) -> (data: [u8; MAX_PAYLOAD])
        ensures
            data@ == self@.padded(),
    {
        proof {
            use_type_invariant(self);
            assert(self.data@ =~= self@.padded());
        }
        self.data
    }

    /// Byte `index` of the padded payload.
    pub fn _byte(&self, index: usize) -> (byte: u8)
        requires
            index < MAX_PAYLOAD,
        ensures
            byte == self@.padded()[index as int],
    {
        proof {
            use_type_invariant(self);
        }
        self.data[index]
    }

    pub fn id(&self) -> (id: u16)
        ensures
            id == self@.id,
            id <= MAX_STANDARD_ID,
    {
        proof {
            use_type_invariant(self);
        }
        self.id
    }

    /// The declared length of the payload.
    pub fn _len(&self) -> (len: usize)
        ensures
            len == self@.payload.len(),
            len <= MAX_PAYLOAD,
    {
        proof {
            use_type_invariant(self);
        }
        self._len
    }
}

} // verus!

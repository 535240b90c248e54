//! Data carried by the random vector-OLE messages.
use vstd::prelude::*;

verus! {

/// Width of a field element in bytes.
pub const KAPPA_BYTES: usize = 16;

/// Number of gadget-vector entries (the soft-spoken payload width).
pub const XI: usize = 384;

/// Number of 128-bit blocks that cover the statistical check.
pub const RHO: usize = 1;

/// Bytes of the consistency hash.
pub const MU_HASH_BYTES: usize = 32;

/// Bytes that hold the receiver's `XI` choice bits.
pub const L_BYTES: usize = 48;

/// One batch entry of the sender's masked values: `XI` field elements.
#[derive(Clone, Debug)]
pub struct RVOLEOutputATilde {
    pub inner: Vec<[u8; KAPPA_BYTES]>,
}

impl RVOLEOutputATilde {
    /// An all-zero entry of `XI` elements.
    pub fn zeroed() -> (r: RVOLEOutputATilde)
        ensures
            r.inner@.len() == XI,
            forall|i: int| 0 <= i < XI ==> #[trigger] r.inner@[i] == [0u8; KAPPA_BYTES],
    {
        let mut inner: Vec<[u8; KAPPA_BYTES]> = Vec::new();
        let mut i: usize = 0;
        while i < XI
            invariant
                0 <= i <= XI,
                inner@.len() == i,
                forall|k: int| 0 <= k < i ==> #[trigger] inner@[k] == [0u8; KAPPA_BYTES],
            decreases XI - i,
        {
            inner.push([0u8; KAPPA_BYTES]);
            i += 1;
        }
        RVOLEOutputATilde { inner }
    }
}

/// Message output in RVOLE protocol
#[derive(Clone, Debug)]
pub struct RVOLEOutput {
    a_tilde: Vec<RVOLEOutputATilde>,
    eta: [[u8; KAPPA_BYTES]; RHO],
    mu_hash: [u8; MU_HASH_BYTES],
}

impl RVOLEOutput {
    /// Number of batch entries (`l_batch + RHO`).
    pub closed spec fn entries(&self) -> nat {
        self.a_tilde@.len()
    }

    /// Every entry has `XI` elements.
    pub closed spec fn wf(&self) -> bool {
        forall|i: int| 0 <= i < self.a_tilde@.len() ==> (#[trigger] self.a_tilde@[i]).inner@.len() == XI
    }

    /// Element `j` of batch entry `i`.
    pub closed spec fn element(&self, i: int, j: int) -> [u8; KAPPA_BYTES] {
        self.a_tilde@[i].inner@[j]
    }

    /// The check block `eta`.
    pub closed spec fn eta_spec(&self) -> Seq<[u8; KAPPA_BYTES]> {
        self.eta@
    }

    /// The consistency hash.
    pub closed spec fn mu_hash_spec(&self) -> Seq<u8> {
        self.mu_hash@
    }

    /// Every element, the check block and the hash are zero.
    pub open spec fn is_zero(&self) -> bool {
        &&& forall|i: int, j: int| 0 <= i < self.entries() && 0 <= j < XI ==> #[trigger] self.element(i, j) == [0u8; KAPPA_BYTES]
        &&& self.eta_spec().len() == RHO
        &&& forall|i: int| 0 <= i < RHO ==> #[trigger] self.eta_spec()[i] == [0u8; KAPPA_BYTES]
        &&& self.mu_hash_spec().len() == MU_HASH_BYTES
        &&& forall|i: int| 0 <= i < MU_HASH_BYTES ==> #[trigger] self.mu_hash_spec()[i] == 0u8
    }

    /// Number of batch entries.
    pub fn entries_len(&self) -> (r: usize)
        ensures
            r == self.entries(),
    {
        self.a_tilde.len()
    }

    /// An all-zero output with room for `l_batch` values plus the check
    /// block.
    pub fn new(l_batch: usize) -> (r: Self)
        requires
            l_batch < usize::MAX,
        ensures
            r.entries() == l_batch + RHO,
            r.wf(),
            r.is_zero(),
    {
        let mut a_tilde: Vec<RVOLEOutputATilde> = Vec::new();
        let mut i: usize = 0;
        while i < l_batch + RHO
            invariant
                l_batch < usize::MAX,
                0 <= i <= l_batch + RHO,
                a_tilde@.len() == i,
                forall|k: int| 0 <= k < i ==> (#[trigger] a_tilde@[k]).inner@.len() == XI,
                forall|k: int, j: int| 0 <= k < i && 0 <= j < XI ==> #[trigger] a_tilde@[k].inner@[j] == [0u8; KAPPA_BYTES],
            decreases l_batch + RHO - i,
        {
            a_tilde.push(RVOLEOutputATilde::zeroed());
            i += 1;
        }
        RVOLEOutput { a_tilde, eta: [[0u8; KAPPA_BYTES]; RHO], mu_hash: [0u8; MU_HASH_BYTES] }
    }
}

/// RVOLE receiver state: the session and the choice bits of `beta`.
#[derive(Clone, Debug)]
pub struct RVOLEReceiver {
    pub session_id: [u8; 32],
    pub beta: [u8; L_BYTES],
}

/// RVOLE sender (stateless between its calls).
#[derive(Clone, Copy, Debug)]
pub struct RVOLESender;

} // verus!

//! The record store: a ledger of storage cells, each created once and filled
//! with a caller's payload.

use vstd::prelude::*;
use vstd::utf8::encode_utf8;

use crate::account::{
    account_layout, fits_in_space, DesignAccount, MAX_PAYLOAD_LEN,
};

verus! {

/// Why a store request was rejected. A rejected request changes nothing.
#[derive(Clone, Copy, Debug, PartialEq, Eq, Structural)]
pub enum StoreError {
    /// The target cell already exists, or the payer cannot fund its allocation.
    AllocationFailure,
    /// The payer did not sign the request.
    AuthorizationFailure,
    /// The persisted record would not fit in the space allocated for a cell.
    CapacityExceeded,
}

/// The parties named by a store request.
#[derive(Clone, Copy, Debug, PartialEq, Eq, Structural)]
pub struct StoreDesign {
    /// Address of the cell to create.
    pub design_account: u64,
    /// The payer identity that funds the new cell.
    pub user: u64,
    /// Whether the payer signed the request.
    pub user_is_signer: bool,
    /// The payer's balance when the request is processed.
    pub user_lamports: u64,
}

/// Outcome of a store request on a ledger whose cells are `cells`, where a
/// new cell costs `cost`, with the payload `payload`.
pub open spec fn store_outcome(
    cells: Map<u64, Seq<u8>>,
    cost: u64,
    ctx: StoreDesign,
    payload: Seq<u8>,
) -> Result<(), StoreError> {
    if !ctx.user_is_signer {
        Err(StoreError::AuthorizationFailure)
    } else if cells.contains_key(ctx.design_account) || ctx.user_lamports < cost {
        Err(StoreError::AllocationFailure)
    } else if !fits_in_space(payload) {
        Err(StoreError::CapacityExceeded)
    } else {
        Ok(())
    }
}

/// The cells after that request: one more cell holding `payload` if it
/// succeeds, the same cells if it fails.
pub open spec fn cells_after(
    cells: Map<u64, Seq<u8>>,
    cost: u64,
    ctx: StoreDesign,
    payload: Seq<u8>,
) -> Map<u64, Seq<u8>> {
    if store_outcome(cells, cost, ctx, payload) is Ok {
        cells.insert(ctx.design_account, payload)
    } else {
        cells
    }
}

/// The ledger of storage cells, with its configuration.
pub struct RecordStore {
    program_id: u64,
    allocation_cost: u64,
    discriminator: [u8; 8],
    addresses: Vec<u64>,
    records: Vec<DesignAccount>,
    cells: Ghost<Map<u64, Seq<u8>>>,
}

impl View for RecordStore {
    type V = Map<u64, Seq<u8>>;

    /// The payload of each existing cell, by address.
    closed spec fn view(&self) -> Map<u64, Seq<u8>> {
        self.cells@
    }
}

impl RecordStore {
    /// Every cell is listed once, with the record it holds, and fits its space.
    pub closed spec fn wf(&self) -> bool {
        &&& self.addresses@.len() == self.records@.len()
        &&& forall|i: int|
            0 <= i < self.addresses@.len() ==> {
                &&& #[trigger] self.cells@.contains_key(self.addresses@[i])
                &&& self.cells@[self.addresses@[i]] == self.records@[i]@
            }
        &&& forall|a: u64|
            #[trigger] self.cells@.contains_key(a) ==> exists|i: int|
                0 <= i < self.addresses@.len() && self.addresses@[i] == a
        &&& forall|a: u64| #[trigger]
            self.cells@.contains_key(a) ==> fits_in_space(self.cells@[a])
    }

    pub closed spec fn spec_program_id(&self) -> u64 {
        self.program_id
    }

    pub closed spec fn spec_allocation_cost(&self) -> u64 {
        self.allocation_cost
    }

    pub closed spec fn spec_discriminator(&self) -> Seq<u8> {
        self.discriminator@
    }

    /// An empty ledger for the program `program_id`, where a new cell costs
    /// `allocation_cost` and records are tagged with `discriminator`.
    pub fn new(program_id: u64, allocation_cost: u64, discriminator: [u8; 8]) -> (r: RecordStore)
        ensures
            r.wf(),
            r@ == Map::<u64, Seq<u8>>::empty(),
            r.spec_program_id() == program_id,
            r.spec_allocation_cost() == allocation_cost,
            r.spec_discriminator() == discriminator@,
    {
        RecordStore {
            program_id,
            allocation_cost,
            discriminator,
            addresses: Vec::new(),
            records: Vec::new(),
            cells: Ghost(Map::empty()),
        }
    }

    pub fn program_id(&self) -> (r: u64)
        ensures
            r == self.spec_program_id(),
    {
        self.program_id
    }

    pub fn allocation_cost(&self) -> (r: u64)
        ensures
            r == self.spec_allocation_cost(),
    {
        self.allocation_cost
    }

    /// Position of the cell at `address` in the ledger's lists, if it exists.
    fn find(&self, address: u64) -> (r: Option<usize>)
        requires
            self.wf(),
        ensures
            match r {
                Some(i) => {
                    &&& i < self.records@.len()
                    &&& self@.contains_key(address)
                    &&& self@[address] == self.records@[i as int]@
                    &&& fits_in_space(self.records@[i as int]@)
                },
                None => !self@.contains_key(address),
            },
    {
        let mut i: usize = 0;
        while i < self.addresses.len()
            invariant
                self.wf(),
                i <= self.addresses@.len(),
                forall|j: int| 0 <= j < i ==> self.addresses@[j] != address,
            decreases self.addresses@.len() - i,
        {
            if self.addresses[i] == address {
                assert(self.cells@.contains_key(self.addresses@[i as int]));
                return Some(i);
            }
            i = i + 1;
        }
        None
    }

    /// Whether a cell exists at `address`.
    pub fn contains(&self, address: u64) -> (r: bool)
        requires
            self.wf(),
        ensures
            r == self@.contains_key(address),
    {
        match self.find(address) {
            Some(_) => true,
            None => false,
        }
    }

    /// The payload stored in the cell at `address`, if that cell exists.
    pub fn payload(&self, address: u64) -> (r: Option<&[u8]>)
        requires
            self.wf(),
        ensures
            match r {
                Some(p) => self@.contains_key(address) && p@ == self@[address],
                None => !self@.contains_key(address),
            },
    {
        match self.find(address) {
            Some(i) => Some(self.records[i].json_data.as_slice()),
            None => None,
        }
    }

    /// The persisted bytes of the cell at `address`, if that cell exists.
    pub fn account_data(&self, address: u64) -> (r: Option<Vec<u8>>)
        requires
            self.wf(),
        ensures
            match r {
                Some(d) => self@.contains_key(address) && d@ == account_layout(
                    self.spec_discriminator(),
                    self@[address],
                ),
                None => !self@.contains_key(address),
            },
    {
        match self.find(address) {
            Some(i) => Some(self.records[i].to_account_bytes(&self.discriminator)),
            None => None,
        }
    }

    /// Adds a cell at an address that holds none yet.
    fn insert_new(&mut self, address: u64, record: DesignAccount)
        requires
            old(self).wf(),
            !old(self)@.contains_key(address),
            fits_in_space(record@),
        ensures
            final(self).wf(),
            final(self)@ == old(self)@.insert(address, record@),
            final(self).spec_program_id() == old(self).spec_program_id(),
            final(self).spec_allocation_cost() == old(self).spec_allocation_cost(),
            final(self).spec_discriminator() == old(self).spec_discriminator(),
    {
        let ghost old_cells = self.cells@;
        let ghost old_addresses = self.addresses@;
        let ghost n = self.addresses@.len();
        let ghost payload = record@;
        self.addresses.push(address);
        self.records.push(record);
        self.cells = Ghost(old_cells.insert(address, payload));
        assert forall|i: int| 0 <= i < self.addresses@.len() implies {
            &&& #[trigger] self.cells@.contains_key(self.addresses@[i])
            &&& self.cells@[self.addresses@[i]] == self.records@[i]@
        } by {
            if i < n {
                assert(old_addresses[i] == self.addresses@[i]);
                assert(old_cells.contains_key(old_addresses[i]));
            }
        }
        assert forall|a: u64| #[trigger] self.cells@.contains_key(a) implies exists|i: int|
            0 <= i < self.addresses@.len() && self.addresses@[i] == a by {
            if a == address {
                assert(self.addresses@[n as int] == a);
            } else {
                assert(old_cells.contains_key(a));
                let k = choose|k: int| 0 <= k < n && old_addresses[k] == a;
                assert(self.addresses@[k] == old_addresses[k]);
            }
        }
    }
}

/// Creates the cell `ctx.design_account` and copies the UTF-8 bytes of
/// `json_data` into it, unparsed.
///
/// The request is checked in this order: the payer must have signed it
/// (else `AuthorizationFailure`); the cell must not exist yet and the payer
/// must cover its cost (else `AllocationFailure`); the persisted record must
/// fit the cell's space (else `CapacityExceeded`). A rejected request leaves
/// the ledger as it was.
pub fn store_design(store: &mut RecordStore, ctx: StoreDesign, json_data: String) -> (r: Result<
    (),
    StoreError,
>)
    requires
        old(store).wf(),
    ensures
        final(store).wf(),
        r == store_outcome(
            old(store)@,
            old(store).spec_allocation_cost(),
            ctx,
            encode_utf8(json_data@),
        ),
        final(store)@ == cells_after(
            old(store)@,
            old(store).spec_allocation_cost(),
            ctx,
            encode_utf8(json_data@),
        ),
        final(store).spec_program_id() == old(store).spec_program_id(),
        final(store).spec_allocation_cost() == old(store).spec_allocation_cost(),
        final(store).spec_discriminator() == old(store).spec_discriminator(),
{
    if !ctx.user_is_signer {
        return Err(StoreError::AuthorizationFailure);
    }
    if store.contains(ctx.design_account) || ctx.user_lamports < store.allocation_cost {
        return Err(StoreError::AllocationFailure);
    }
    let record = DesignAccount::from_text(json_data.as_str());
    if !record.fits() {
        return Err(StoreError::CapacityExceeded);
    }
    store.insert_new(ctx.design_account, record);
    Ok(())
}

/// A payload that fits, stored by a payer who signed and can pay, into a cell
/// that does not exist yet, is accepted and comes back byte for byte.
pub proof fn lemma_store_fresh_cell_keeps_bytes(
    cells: Map<u64, Seq<u8>>,
    cost: u64,
    ctx: StoreDesign,
    s: Seq<char>,
)
    requires
        ctx.user_is_signer,
        ctx.user_lamports >= cost,
        !cells.contains_key(ctx.design_account),
        encode_utf8(s).len() <= MAX_PAYLOAD_LEN,
    ensures
        store_outcome(cells, cost, ctx, encode_utf8(s)) == Ok::<(), StoreError>(()),
        cells_after(cells, cost, ctx, encode_utf8(s)).contains_key(ctx.design_account),
        cells_after(cells, cost, ctx, encode_utf8(s))[ctx.design_account] == encode_utf8(s),
{
}

/// A payload longer than a cell can hold is rejected for its size, and no
/// cell is created, when nothing else stands in its way.
pub proof fn lemma_oversized_payload_rejected(
    cells: Map<u64, Seq<u8>>,
    cost: u64,
    ctx: StoreDesign,
    s: Seq<char>,
)
    requires
        ctx.user_is_signer,
        ctx.user_lamports >= cost,
        !cells.contains_key(ctx.design_account),
        encode_utf8(s).len() > MAX_PAYLOAD_LEN,
    ensures
        store_outcome(cells, cost, ctx, encode_utf8(s)) == Err::<(), StoreError>(
            StoreError::CapacityExceeded,
        ),
        cells_after(cells, cost, ctx, encode_utf8(s)) == cells,
        !cells_after(cells, cost, ctx, encode_utf8(s)).contains_key(ctx.design_account),
{
}

/// Once a store into a cell has succeeded, a signed store into the same cell
/// fails to allocate it, and the cell keeps the first payload.
pub proof fn lemma_second_store_same_cell_fails(
    cells: Map<u64, Seq<u8>>,
    cost: u64,
    first: StoreDesign,
    second: StoreDesign,
    s1: Seq<char>,
    s2: Seq<char>,
)
    requires
        store_outcome(cells, cost, first, encode_utf8(s1)) is Ok,
        second.design_account == first.design_account,
        second.user_is_signer,
    ensures
        ({
            let mid = cells_after(cells, cost, first, encode_utf8(s1));
            &&& store_outcome(mid, cost, second, encode_utf8(s2)) == Err::<(), StoreError>(
                StoreError::AllocationFailure,
            )
            &&& cells_after(mid, cost, second, encode_utf8(s2)) == mid
            &&& cells_after(mid, cost, second, encode_utf8(s2))[first.design_account]
                == encode_utf8(s1)
        }),
{
}

/// A request the payer did not sign is rejected for that, whatever its
/// payload, and no cell is created.
pub proof fn lemma_unsigned_request_rejected(
    cells: Map<u64, Seq<u8>>,
    cost: u64,
    ctx: StoreDesign,
    s: Seq<char>,
)
    requires
        !ctx.user_is_signer,
    ensures
        store_outcome(cells, cost, ctx, encode_utf8(s)) == Err::<(), StoreError>(
            StoreError::AuthorizationFailure,
        ),
        cells_after(cells, cost, ctx, encode_utf8(s)) == cells,
{
}

} // verus!

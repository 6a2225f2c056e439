//! A model of the ledger the gateway serves: the chain of block summaries
//! keyed by height, the memory pool of accepted transaction payloads, and
//! the record store the record queries scan. The gateway's contracts are
//! stated against this model; the application shell keeps it in step with
//! the external ledger it fronts.

use vstd::prelude::*;

verus! {

/// What a read-only query needs to know of a block: its height and its hash.
/// Everything else about a block is opaque to the gateway.
#[derive(Clone, Copy, PartialEq, Eq, Structural, Debug)]
pub struct BlockSummary {
    /// The block's position in the chain.
    pub height: u32,
    /// The block's hash, carried as an opaque identifier.
    pub hash: u64,
}

/// One record the ledger knows of, reduced to what the record queries read:
/// its unique commitment, the record itself as an opaque identifier, and
/// whether it has been spent.
#[derive(Clone, Copy, PartialEq, Eq, Structural, Debug)]
pub struct RecordInfo {
    /// The commitment that uniquely identifies the record.
    pub commitment: u64,
    /// The record, carried as an opaque identifier.
    pub record: u64,
    /// Whether the record has been spent.
    pub spent: bool,
}

/// Why a ledger read failed.
#[derive(Clone, Copy, PartialEq, Eq, Structural, Debug)]
pub enum LookupError {
    /// The requested block height is beyond the chain tip.
    BlockNotFound,
}

/// Why applying a mutation failed.
#[derive(Clone, Copy, PartialEq, Eq, Structural, Debug)]
pub enum ApplyError {
    /// The ledger refused the transaction.
    TransactionRejected,
}

/// A transaction payload the ledger accepts: it must not be empty.
/// An empty payload stands for a transaction the ledger rejects.
pub open spec fn valid_payload(p: Seq<u8>) -> bool {
    p.len() > 0
}

/// The ledger state the gateway reads and mutates.
pub struct ChainState {
    blocks: Vec<BlockSummary>,
    pool: Vec<Vec<u8>>,
    records: Vec<RecordInfo>,
}

impl ChainState {
    /// The chain's blocks, in height order.
    pub closed spec fn blocks_view(&self) -> Seq<BlockSummary> {
        self.blocks@
    }

    /// The memory pool: the payloads accepted so far, in arrival order.
    pub closed spec fn pool_view(&self) -> Seq<Seq<u8>> {
        self.pool.deep_view()
    }

    /// The record store, in scan order.
    pub closed spec fn records_view(&self) -> Seq<RecordInfo> {
        self.records@
    }

    /// A well-formed chain starts at the genesis block, numbers its blocks
    /// consecutively from height 0, and identifies each record by a unique
    /// commitment.
    pub closed spec fn wf(&self) -> bool {
        &&& self.blocks@.len() >= 1
        &&& self.blocks@.len() <= u32::MAX as nat + 1
        &&& forall|i: int|
            0 <= i < self.blocks@.len() ==> (#[trigger] self.blocks@[i]).height == i
        &&& forall|i: int, j: int|
            0 <= i < j < self.records@.len() ==> (#[trigger] self.records@[i]).commitment != (
            #[trigger] self.records@[j]).commitment
    }

    /// A chain holding only the genesis block, an empty pool and no records.
    pub fn genesis(genesis_hash: u64) -> (c: ChainState)
        ensures
            c.wf(),
            c.blocks_view() == seq![BlockSummary { height: 0, hash: genesis_hash }],
            c.pool_view() == Seq::<Seq<u8>>::empty(),
            c.records_view() == Seq::<RecordInfo>::empty(),
    {
        let blocks = vec![BlockSummary { height: 0, hash: genesis_hash }];
        let c = ChainState { blocks, pool: Vec::new(), records: Vec::new() };
        proof {
            assert(c.blocks@ =~= seq![BlockSummary { height: 0, hash: genesis_hash }]);
            assert(c.pool.deep_view() =~= Seq::<Seq<u8>>::empty());
        }
        c
    }

    /// Appends the next block to the chain tip.
    pub fn append_block(&mut self, hash: u64) -> (b: BlockSummary)
        requires
            old(self).wf(),
            old(self).blocks_view().len() <= u32::MAX as nat,
        ensures
            final(self).wf(),
            b.height as nat == old(self).blocks_view().len(),
            b.hash == hash,
            final(self).blocks_view() == old(self).blocks_view().push(b),
            final(self).pool_view() == old(self).pool_view(),
            final(self).records_view() == old(self).records_view(),
    {
        let height = self.blocks.len() as u32;
        let b = BlockSummary { height, hash };
        self.blocks.push(b);
        b
    }

    /// The record store, for a query's scan.
    pub fn records(&self) -> (rs: &Vec<RecordInfo>)
        ensures
            rs@ == self.records_view(),
    {
        &self.records
    }

    /// Makes a record known to the ledger, under a commitment not yet
    /// taken.
    pub fn add_record(&mut self, info: RecordInfo)
        requires
            old(self).wf(),
            forall|i: int|
                0 <= i < old(self).records_view().len() ==> (#[trigger] old(
                    self,
                ).records_view()[i]).commitment != info.commitment,
        ensures
            final(self).wf(),
            final(self).records_view() == old(self).records_view().push(info),
            final(self).blocks_view() == old(self).blocks_view(),
            final(self).pool_view() == old(self).pool_view(),
    {
        self.records.push(info);
        proof {
            let rs = self.records@;
            let old_rs = old(self).records_view();
            assert forall|i: int, j: int| 0 <= i < j < rs.len() implies (#[trigger] rs[i]).commitment
                != (#[trigger] rs[j]).commitment by {
                assert(rs[i] == old_rs[i]);
                if j < rs.len() - 1 {
                    assert(rs[j] == old_rs[j]);
                } else {
                    assert(rs[j] == info);
                    assert(old_rs[i].commitment != info.commitment);
                }
            }
        }
    }

    /// In a well-formed chain, record commitments are pairwise distinct.
    pub proof fn lemma_records_distinct(&self)
        requires
            self.wf(),
        ensures
            forall|i: int, j: int|
                0 <= i < j < self.records_view().len() ==> (#[trigger] self.records_view()[i]).commitment
                    != (#[trigger] self.records_view()[j]).commitment,
    {
    }

    /// The height of the chain tip.
    pub fn latest_height(&self) -> (h: u32)
        requires
            self.wf(),
        ensures
            h as nat == self.blocks_view().len() - 1,
    {
        (self.blocks.len() - 1) as u32
    }

    /// The hash of the chain tip.
    pub fn latest_hash(&self) -> (h: u64)
        requires
            self.wf(),
        ensures
            h == self.blocks_view().last().hash,
    {
        self.blocks[self.blocks.len() - 1].hash
    }

    /// The block at the chain tip. A well-formed chain always has one.
    pub fn latest_block(&self) -> (b: BlockSummary)
        requires
            self.wf(),
        ensures
            b == self.blocks_view().last(),
    {
        self.blocks[self.blocks.len() - 1]
    }

    /// The block at the given height, or a lookup failure exactly when the
    /// height is beyond the chain tip. A failed lookup changes nothing and
    /// never aborts the server.
    pub fn get_block(&self, height: u32) -> (r: Result<BlockSummary, LookupError>)
        requires
            self.wf(),
        ensures
            (height as nat) < self.blocks_view().len() ==> r == Ok::<BlockSummary, LookupError>(
                self.blocks_view()[height as int],
            ),
            (height as nat) >= self.blocks_view().len() ==> r == Err::<BlockSummary, LookupError>(
                LookupError::BlockNotFound,
            ),
    {
        if (height as usize) < self.blocks.len() {
            Ok(self.blocks[height as usize])
        } else {
            Err(LookupError::BlockNotFound)
        }
    }

    /// How many payloads the memory pool holds.
    pub fn pool_len(&self) -> (n: usize)
        ensures
            n as nat == self.pool_view().len(),
    {
        self.pool.len()
    }

    /// The payload at this position of the memory pool, in arrival order.
    pub fn pool_get(&self, i: usize) -> (r: Option<&Vec<u8>>)
        ensures
            (i as nat) < self.pool_view().len() ==> r is Some && r.unwrap()@ == self.pool_view()[i as int],
            (i as nat) >= self.pool_view().len() ==> r is None,
    {
        if i < self.pool.len() {
            Some(&self.pool[i])
        } else {
            None
        }
    }

    /// Accepts a transaction payload into the memory pool, or refuses it
    /// exactly when the ledger rejects the payload. A refused payload
    /// leaves the pool unchanged.
    pub fn add_to_memory_pool(&mut self, payload: Vec<u8>) -> (r: Result<(), ApplyError>)
        requires
            old(self).wf(),
        ensures
            final(self).wf(),
            final(self).blocks_view() == old(self).blocks_view(),
            final(self).records_view() == old(self).records_view(),
            valid_payload(payload@) ==> r == Ok::<(), ApplyError>(()) && final(self).pool_view()
                == old(self).pool_view().push(payload@),
            !valid_payload(payload@) ==> r == Err::<(), ApplyError>(
                ApplyError::TransactionRejected,
            ) && final(self).pool_view() == old(self).pool_view(),
    {
        if payload.len() == 0 {
            Err(ApplyError::TransactionRejected)
        } else {
            let ghost old_pool = self.pool.deep_view();
            let ghost p = payload@;
            self.pool.push(payload);
            proof {
                assert(self.pool.deep_view() =~~= old_pool.push(p));
            }
            Ok(())
        }
    }
}

} // verus!

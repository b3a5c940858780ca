use vstd::prelude::*;

use crate::symbol::Symbol;

verus! {

/// The number of blocks on each side of block 0 that hold `i32` positions:
/// those blocks are `-LOW_BLOCKS .. LOW_BLOCKS`.
const LOW_BLOCKS: i64 = 0x400_0000;

/// An unbounded tape, stored as 32-bit blocks of which only the touched span
/// is materialized: position `p` lives in bit `p % 32` of block `p / 32`.
/// Block `pivot + i` is `up[i]` and block `pivot - 1 - i` is `down[i]`, so the
/// span grows at either end by a push.
#[derive(Debug)]
pub struct Tape {
    up: Vec<u32>,
    down: Vec<u32>,
    pivot: i64,
}

/// The positions holding `One` after `s` is written at `p`.
pub open spec fn written(ones: Set<int>, p: int, s: Symbol) -> Set<int> {
    if s == Symbol::One {
        ones.insert(p)
    } else {
        ones.remove(p)
    }
}

/// The positions holding `One` after each write of `writes`, in order, is
/// made on a tape whose positions holding `One` are `ones`.
pub open spec fn after_writes(ones: Set<int>, writes: Seq<(int, Symbol)>) -> Set<int>
    decreases writes.len(),
{
    if writes.len() == 0 {
        ones
    } else {
        written(after_writes(ones, writes.drop_last()), writes.last().0, writes.last().1)
    }
}

/// The symbol of the last write of `writes` at `p`, if there is one.
pub open spec fn last_write_at(writes: Seq<(int, Symbol)>, p: int) -> Option<Symbol>
    decreases writes.len(),
{
    if writes.len() == 0 {
        None
    } else if writes.last().0 == p {
        Some(writes.last().1)
    } else {
        last_write_at(writes.drop_last(), p)
    }
}

/// After any sequence of writes, a position holds what the most recent write
/// there put, whatever was written elsewhere and in whichever order; a
/// position that no write touched holds what it held before.
pub proof fn lemma_last_write_wins(ones: Set<int>, writes: Seq<(int, Symbol)>, p: int)
    ensures
        after_writes(ones, writes).contains(p) == match last_write_at(writes, p) {
            Some(s) => s == Symbol::One,
            None => ones.contains(p),
        },
    decreases writes.len(),
{
    if writes.len() > 0 {
        lemma_last_write_wins(ones, writes.drop_last(), p);
    }
}

/// Two sequences of writes that leave the same last write at every position,
/// as any reordering does that keeps the order of the writes to each single
/// position, give the same tape from the same start.
pub proof fn lemma_reordered_writes(
    ones: Set<int>,
    writes: Seq<(int, Symbol)>,
    reordered: Seq<(int, Symbol)>,
)
    requires
        forall|p: int| #[trigger] last_write_at(writes, p) == last_write_at(reordered, p),
    ensures
        after_writes(ones, writes) == after_writes(ones, reordered),
{
    assert forall|p: int|
        after_writes(ones, writes).contains(p) == after_writes(ones, reordered).contains(p) by {
        lemma_last_write_wins(ones, writes, p);
        lemma_last_write_wins(ones, reordered, p);
        assert(last_write_at(writes, p) == last_write_at(reordered, p));
    }
    assert(after_writes(ones, writes) =~= after_writes(ones, reordered));
}

/// Bit `off` of `word` is set.
pub open spec fn bit_of(word: u32, off: u32) -> bool {
    (word >> off) & 1u32 == 1u32
}

proof fn lemma_bit_range(word: u32, off: u32)
    ensures
        (word >> off) & 1u32 < 2,
{
    assert((word >> off) & 1u32 < 2) by (bit_vector);
}

proof fn lemma_zero_word(off: u32)
    ensures
        !bit_of(0u32, off),
{
    assert((0u32 >> off) & 1u32 == 0u32) by (bit_vector);
}

proof fn lemma_set_bit(word: u32, off: u32, b: u32, q: u32)
    requires
        off < 32,
        q < 32,
        b < 2,
    ensures
        bit_of((word & !(1u32 << off)) | (b << off), q) == if q == off {
            b == 1
        } else {
            bit_of(word, q)
        },
{
    assert(((((word & !(1u32 << off)) | (b << off)) >> q) & 1u32) == if q == off {
        b
    } else {
        (word >> q) & 1u32
    }) by (bit_vector)
        requires
            off < 32,
            q < 32,
            b < 2,
    ;
}

/// Splits an `i32` position into its block (counted from block 0) and the
/// bit within that block.
fn split_position(index: i32) -> (r: (i64, u32))
    ensures
        r.0 == index as int / 32,
        r.1 == index as int % 32,
        r.1 < 32,
        -LOW_BLOCKS <= r.0 < LOW_BLOCKS,
{
    let biased: u32 = (index as i64 + 0x8000_0000i64) as u32;
    let block: u32 = biased >> 5u32;
    let offset: u32 = biased & 31u32;
    assert(biased >> 5u32 == biased / 32) by (bit_vector);
    assert(biased & 31u32 == biased % 32) by (bit_vector);
    let ghost p = index as int;
    assert((p + 0x8000_0000) / 32 == p / 32 + 0x400_0000 && (p + 0x8000_0000) % 32 == p % 32)
        by (nonlinear_arith);
    (block as i64 - LOW_BLOCKS, offset)
}

impl Tape {
    /// The materialized span lies within the blocks of `i32` positions.
    pub closed spec fn wf(&self) -> bool {
        &&& -LOW_BLOCKS <= self.pivot - self.down@.len()
        &&& self.pivot + self.up@.len() <= LOW_BLOCKS
    }

    /// The lowest materialized block.
    pub closed spec fn low_block(&self) -> int {
        self.pivot - self.down@.len()
    }

    /// One past the highest materialized block.
    pub closed spec fn high_block(&self) -> int {
        self.pivot + self.up@.len()
    }

    /// The bits of block `b`; 0 where it is not materialized.
    closed spec fn word(&self, b: int) -> u32 {
        if self.pivot <= b < self.high_block() {
            self.up@[b - self.pivot]
        } else if self.low_block() <= b < self.pivot {
            self.down@[self.pivot - 1 - b]
        } else {
            0u32
        }
    }

    /// The symbol at position `p`.
    pub closed spec fn symbol_at(&self, p: int) -> Symbol {
        if bit_of(self.word(p / 32), (p % 32) as u32) {
            Symbol::One
        } else {
            Symbol::Zero
        }
    }

    /// The tape's contents: the positions that hold `One`.
    pub open spec fn view(&self) -> Set<int> {
        Set::new(|p: int| self.symbol_at(p) == Symbol::One)
    }

    /// The number of blocks of 32 cells held in storage.
    pub fn num_blocks(&self) -> (r: usize)
        requires
            self.wf(),
        ensures
            r == self.high_block() - self.low_block(),
    {
        self.up.len() + self.down.len()
    }

    /// A tape on which every cell is blank and nothing is materialized.
    pub fn new() -> (r: Tape)
        ensures
            r.wf(),
            r@ == Set::<int>::empty(),
            r.low_block() == r.high_block(),
    {
        let r = Tape { up: Vec::new(), down: Vec::new(), pivot: 0 };
        assert forall|p: int| r.symbol_at(p) == Symbol::Zero by {
            lemma_zero_word((p % 32) as u32);
        }
        assert(r@ =~= Set::<int>::empty());
        r
    }

    /// The symbol at `index`; `Zero` where nothing was written.
    pub fn read_at(&self, index: i32) -> (r: Symbol)
        requires
            self.wf(),
        ensures
            r == self.symbol_at(index as int),
            r == (if self@.contains(index as int) {
                Symbol::One
            } else {
                Symbol::Zero
            }),
    {
        let (block, offset) = split_position(index);
        let word: u32 = if block >= self.pivot {
            let i = block - self.pivot;
            if i < self.up.len() as i64 {
                self.up[i as usize]
            } else {
                0u32
            }
        } else {
            let i = self.pivot - 1 - block;
            if i < self.down.len() as i64 {
                self.down[i as usize]
            } else {
                0u32
            }
        };
        proof {
            lemma_bit_range(word, offset);
        }
        Symbol::from_int((word >> offset) & 1u32)
    }

    /// Materializes blank blocks so that the span reaches block `block`:
    /// just that block on an empty tape, else from the span to it.
    fn reach(&mut self, block: i64)
        requires
            old(self).wf(),
            -LOW_BLOCKS <= block < LOW_BLOCKS,
        ensures
            final(self).wf(),
            final(self)@ == old(self)@,
            forall|b: int| #[trigger] final(self).word(b) == old(self).word(b),
            final(self).low_block() <= block < final(self).high_block(),
            final(self).low_block() == if old(self).low_block() == old(self).high_block() {
                block as int
            } else if block < old(self).low_block() {
                block as int
            } else {
                old(self).low_block()
            },
            final(self).high_block() == if old(self).low_block() == old(self).high_block() {
                block + 1
            } else if block >= old(self).high_block() {
                block + 1
            } else {
                old(self).high_block()
            },
    {
        let ghost before = *self;
        if self.up.len() == 0 && self.down.len() == 0 {
            self.pivot = block;
            self.up.push(0u32);
        } else if block >= self.pivot + self.up.len() as i64 {
            let target: usize = (block - self.pivot + 1) as usize;
            while self.up.len() < target
                invariant
                    self.pivot == before.pivot,
                    self.down == before.down,
                    before.up@.len() <= self.up@.len() <= target,
                    self.pivot + target <= LOW_BLOCKS,
                    forall|i: int| 0 <= i < before.up@.len() ==> self.up@[i] == before.up@[i],
                    forall|i: int| before.up@.len() <= i < self.up@.len() ==> self.up@[i] == 0u32,
                decreases target - self.up@.len(),
            {
                self.up.push(0u32);
            }
        } else if block < self.pivot - self.down.len() as i64 {
            let target: usize = (self.pivot - block) as usize;
            while self.down.len() < target
                invariant
                    self.pivot == before.pivot,
                    self.up == before.up,
                    before.down@.len() <= self.down@.len() <= target,
                    self.pivot - target >= -LOW_BLOCKS,
                    forall|i: int| 0 <= i < before.down@.len() ==> self.down@[i] == before.down@[i],
                    forall|i: int|
                        before.down@.len() <= i < self.down@.len() ==> self.down@[i] == 0u32,
                decreases target - self.down@.len(),
            {
                self.down.push(0u32);
            }
        }
        assert forall|b: int| #[trigger] self.word(b) == before.word(b) by {}
        assert forall|p: int| #[trigger] self.symbol_at(p) == before.symbol_at(p) by {
            assert(self.word(p / 32) == before.word(p / 32));
        }
        assert(self@ =~= before@);
    }

    /// Writes `new_val` at `index`, materializing blank blocks as needed: on
    /// an empty tape just the block of `index`, else the blocks from the span
    /// to it.
    pub fn write_at(&mut self, index: i32, new_val: Symbol)
        requires
            old(self).wf(),
        ensures
            final(self).wf(),
            final(self)@ == written(old(self)@, index as int, new_val),
            final(self).low_block() == if old(self).low_block() == old(self).high_block() {
                index as int / 32
            } else if index as int / 32 < old(self).low_block() {
                index as int / 32
            } else {
                old(self).low_block()
            },
            final(self).high_block() == if old(self).low_block() == old(self).high_block() {
                index as int / 32 + 1
            } else if index as int / 32 >= old(self).high_block() {
                index as int / 32 + 1
            } else {
                old(self).high_block()
            },
    {
        let ghost before = *self;
        let (block, offset) = split_position(index);
        self.reach(block);
        let ghost grown = *self;
        let bit: u32 = new_val.to_int();
        if block >= self.pivot {
            let i = (block - self.pivot) as usize;
            let prev_bits: u32 = self.up[i];
            let new_bits: u32 = (prev_bits & !(1u32 << offset)) | (bit << offset);
            self.up.set(i, new_bits);
            proof {
                assert forall|b: int| b != block implies #[trigger] self.word(b) == grown.word(b) by {}
                assert(self.word(block as int) == new_bits);
                Self::lemma_write_frame(grown, *self, index, block, offset, prev_bits, bit);
            }
        } else {
            let i = (self.pivot - 1 - block) as usize;
            let prev_bits: u32 = self.down[i];
            let new_bits: u32 = (prev_bits & !(1u32 << offset)) | (bit << offset);
            self.down.set(i, new_bits);
            proof {
                assert forall|b: int| b != block implies #[trigger] self.word(b) == grown.word(b) by {}
                assert(self.word(block as int) == new_bits);
                Self::lemma_write_frame(grown, *self, index, block, offset, prev_bits, bit);
            }
        }
        if new_val == Symbol::One {
            assert(self@ =~= before@.insert(index as int));
        } else {
            assert(self@ =~= before@.remove(index as int));
        }
    }

    /// Setting bit `offset` of block `block` to `bit` changes the symbol at
    /// `index` alone.
    proof fn lemma_write_frame(
        grown: Tape,
        after: Tape,
        index: i32,
        block: i64,
        offset: u32,
        prev_bits: u32,
        bit: u32,
    )
        requires
            block == index as int / 32,
            offset == index as int % 32,
            offset < 32,
            bit < 2,
            prev_bits == grown.word(block as int),
            after.word(block as int) == (prev_bits & !(1u32 << offset)) | (bit << offset),
            forall|b: int| b != block ==> #[trigger] after.word(b) == grown.word(b),
        ensures
            forall|p: int| #[trigger] after.symbol_at(p) == (if p == index as int {
                if bit == 1 { Symbol::One } else { Symbol::Zero }
            } else {
                grown.symbol_at(p)
            }),
    {
        assert forall|p: int| #[trigger] after.symbol_at(p) == (if p == index as int {
            if bit == 1 { Symbol::One } else { Symbol::Zero }
        } else {
            grown.symbol_at(p)
        }) by {
            if p / 32 == block {
                lemma_set_bit(prev_bits, offset, bit, (p % 32) as u32);
                if p != index as int {
                    assert((p % 32) != (index as int % 32)) by (nonlinear_arith)
                        requires
                            p / 32 == index as int / 32,
                            p != index as int,
                    ;
                }
            } else {
                assert(after.word(p / 32) == grown.word(p / 32));
            }
        }
    }
}

impl Default for Tape {
    fn default() -> (r: Tape)
        ensures
            r.wf(),
            r@ == Set::<int>::empty(),
            r.low_block() == r.high_block(),
    {
        Tape::new()
    }
}

} // verus!

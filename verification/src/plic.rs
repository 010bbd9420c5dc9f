use vstd::prelude::*;

verus! {

/// Offset of the kernel's linear mapping of physical memory.
pub const PHYS_VIRT_OFFSET: u64 = 0xffff_ffc0_0000_0000;

/// Physical base address of the PLIC.
pub const PLIC_PADDR: u64 = 0x7000_0000;

/// Kernel virtual address of the PLIC in the linear mapping. All register
/// accesses go through this address (the PLIC library's 32-bit base would fault).
pub const PLIC_KERNEL_VA: u64 = PHYS_VIRT_OFFSET + PLIC_PADDR;

/// Number of interrupt sources of the PLIC (`riscv,ndev` in the device tree).
pub const PLIC_NDEV: u32 = 101;

/// Offset of the enable block of context 2 (hart 1, S-mode): `0x2000 + 2 * 0x80`.
pub const PLIC_CTX2_ENABLE_OFFSET: u64 = 0x2100;

/// Number of 32-bit enable words kept in the shadow; they cover 128 sources.
pub const PLIC_ENABLE_WORDS: usize = 4;

/// Number of sources whose enable bit the shadow holds.
pub const PLIC_ENABLE_SOURCES: u32 = 128;

/// Offset of the claim/complete register of context 2: `0x200000 + 2 * 0x1000`.
pub const PLIC_CTX2_CLAIM_COMPLETE_OFFSET: u64 = 0x20_2000;

/// Kernel virtual address of the claim/complete register of context 2.
pub const PLIC_CLAIM_COMPLETE_VA: u64 = PLIC_KERNEL_VA + PLIC_CTX2_CLAIM_COMPLETE_OFFSET;

/// Priority that a source gets when it is enabled.
pub const PLIC_ENABLED_PRIORITY: u32 = 6;

/// A 32-bit store to a memory-mapped register.
#[derive(PartialEq, Eq, Structural, Clone, Copy, Debug)]
pub struct MmioWrite {
    /// Kernel virtual address of the register.
    pub addr: u64,
    /// Value stored.
    pub value: u32,
}

/// Address of the priority register of `source`: one 32-bit word per source.
pub open spec fn priority_address_spec(source: int) -> int {
    PLIC_KERNEL_VA + 4 * source
}

/// Address of enable word `word` of context 2.
pub open spec fn enable_word_address_spec(word: int) -> int {
    PLIC_KERNEL_VA + PLIC_CTX2_ENABLE_OFFSET + 4 * word
}

/// Whether bit `b` of `w` is set.
pub open spec fn bit_set(w: u32, b: u32) -> bool {
    (w >> b) & 1u32 == 1u32
}

/// The address of the priority register of `source`.
pub fn priority_address(source: u32) -> (r: u64)
    ensures
        r == priority_address_spec(source as int),
{
    PLIC_KERNEL_VA + 4 * (source as u64)
}

/// The address of enable word `word` of context 2.
pub fn enable_word_address(word: usize) -> (r: u64)
    requires
        word < PLIC_ENABLE_WORDS,
    ensures
        r == enable_word_address_spec(word as int),
{
    PLIC_KERNEL_VA + PLIC_CTX2_ENABLE_OFFSET + 4 * (word as u64)
}

/// The stores of the PLIC cold initialisation: priority 1 for each source
/// `1..=PLIC_NDEV`, in that order. The enable block is not touched (reading it
/// faults on this SoC).
pub fn cold_init_writes() -> (r: Vec<MmioWrite>)
    ensures
        r.len() == PLIC_NDEV,
        forall|i: int|
            0 <= i < PLIC_NDEV ==> #[trigger] r@[i] == (MmioWrite {
                addr: priority_address_spec(i + 1) as u64,
                value: 1,
            }),
{
    let mut r: Vec<MmioWrite> = Vec::new();
    let mut source: u32 = 1;
    while source <= PLIC_NDEV
        invariant
            1 <= source <= PLIC_NDEV + 1,
            r.len() == source - 1,
            forall|i: int|
                0 <= i < r.len() ==> #[trigger] r@[i] == (MmioWrite {
                    addr: priority_address_spec(i + 1) as u64,
                    value: 1,
                }),
        decreases PLIC_NDEV + 1 - source,
    {
        let addr = priority_address(source);
        r.push(MmioWrite { addr, value: 1 });
        source = source + 1;
    }
    r
}

/// The source id read from the claim register: `0` means no interrupt is pending.
pub fn claimed_source(raw: u32) -> (r: Option<u32>)
    ensures
        r == (if raw == 0 { None::<u32> } else { Some(raw) }),
{
    if raw == 0 {
        None
    } else {
        Some(raw)
    }
}

/// The PLIC context of a CPU: CPU `n` runs on hart `n + 1` (hart 0 has no
/// S-mode), and the S-mode context of hart `h` is `2 * h`.
pub fn context_of_cpu(cpu_id: usize) -> (r: usize)
    requires
        2 * (cpu_id + 1) <= usize::MAX,
    ensures
        r == 2 * (cpu_id + 1),
{
    let hart_id = cpu_id + 1;
    hart_id * 2
}

/// Different CPUs have different PLIC contexts, each an even S-mode context
/// of a hart other than hart 0.
pub proof fn lemma_contexts_distinct(a: usize, b: usize)
    requires
        a != b,
    ensures
        2 * (a + 1) != 2 * (b + 1),
        (2 * (a + 1)) % 2 == 0,
        2 * (a + 1) >= 2,
{
}

/// The PLIC register layout used, from the PLIC specification: priorities
/// at `4 * source`, the enable words of context `c` at `0x2000 + 0x80 * c`,
/// its claim/complete register at `0x200000 + 0x1000 * c`, all from the PLIC's
/// base in the kernel's linear mapping; this crate uses context 2.
pub proof fn lemma_plic_layout(source: int, word: int)
    ensures
        PLIC_KERNEL_VA == PHYS_VIRT_OFFSET + PLIC_PADDR,
        priority_address_spec(source) == PLIC_KERNEL_VA + 4 * source,
        enable_word_address_spec(word) == PLIC_KERNEL_VA + 0x2000 + 0x80 * 2 + 4 * word,
        PLIC_CLAIM_COMPLETE_VA == PLIC_KERNEL_VA + 0x20_0000 + 0x1000 * 2,
{
}

} // verus!

use vstd::prelude::*;

verus! {

/// RAM after the initialised-data section `[sdata, edata)` was filled with its load image,
/// which starts at word `sidata` of `image`.
pub open spec fn with_data(ram: Seq<u32>, image: Seq<u32>, sidata: int, sdata: int, edata: int) -> Seq<u32> {
    Seq::new(ram.len(), |i: int| if sdata <= i < edata { image[sidata + (i - sdata)] } else { ram[i] })
}

/// RAM after the zero-initialised section `[sbss, ebss)` was cleared.
pub open spec fn with_zeroed(ram: Seq<u32>, sbss: int, ebss: int) -> Seq<u32> {
    Seq::new(ram.len(), |i: int| if sbss <= i < ebss { 0u32 } else { ram[i] })
}

/// Copies the load image of the initialised data, word by word, from `image` (starting at
/// word `sidata`) into RAM words `sdata` up to `edata`. Nothing happens when `sdata` is not
/// below `edata`.
pub fn init_data(image: &[u32], sidata: usize, ram: &mut [u32], sdata: usize, edata: usize)
    requires
        sdata < edata ==> edata <= old(ram)@.len() && sidata + (edata - sdata) <= image@.len(),
    ensures
        final(ram)@ == with_data(old(ram)@, image@, sidata as int, sdata as int, edata as int),
{
    let mut src = sidata;
    let mut dst = sdata;
    while dst < edata
        invariant
            sdata <= dst || edata <= sdata,
            sdata < edata ==> dst <= edata && edata <= ram@.len() && sidata + (edata - sdata) <= image@.len(),
            sdata < edata ==> src == sidata + (dst - sdata),
            sdata >= edata ==> dst == sdata,
            ram@.len() == old(ram)@.len(),
            forall|i: int|
                0 <= i < ram@.len() ==> #[trigger] ram@[i] == (if sdata <= i < dst {
                    image@[sidata + (i - sdata)]
                } else {
                    old(ram)@[i]
                }),
        decreases edata - dst,
    {
        ram[dst] = image[src];
        dst = dst + 1;
        src = src + 1;
    }
    assert(ram@ =~= with_data(old(ram)@, image@, sidata as int, sdata as int, edata as int));
}

/// Clears RAM words `sbss` up to `ebss`. Nothing happens when `sbss` is not below `ebss`.
pub fn zero_bss(ram: &mut [u32], sbss: usize, ebss: usize)
    requires
        sbss < ebss ==> ebss <= old(ram)@.len(),
    ensures
        final(ram)@ == with_zeroed(old(ram)@, sbss as int, ebss as int),
{
    let mut dst = sbss;
    while dst < ebss
        invariant
            sbss <= dst,
            sbss < ebss ==> dst <= ebss && ebss <= ram@.len(),
            sbss >= ebss ==> dst == sbss,
            ram@.len() == old(ram)@.len(),
            forall|i: int|
                0 <= i < ram@.len() ==> #[trigger] ram@[i] == (if sbss <= i < dst {
                    0u32
                } else {
                    old(ram)@[i]
                }),
        decreases ebss - dst,
    {
        ram[dst] = 0;
        dst = dst + 1;
    }
    assert(ram@ =~= with_zeroed(old(ram)@, sbss as int, ebss as int));
}

/// Where the linker placed the sections that start-up prepares, as word indices: the load
/// image of the initialised data in flash, and the data and zero-initialised sections in RAM.
pub struct SectionLayout {
    pub sidata: usize,
    pub sdata: usize,
    pub edata: usize,
    pub sbss: usize,
    pub ebss: usize,
}

/// The start-up sequence that runs before `main`: it fills the data section from its load
/// image, then clears the zero-initialised section.
pub fn reset_handler(image: &[u32], ram: &mut [u32], layout: &SectionLayout)
    requires
        layout.sdata < layout.edata ==> layout.edata <= old(ram)@.len() && layout.sidata
            + (layout.edata - layout.sdata) <= image@.len(),
        layout.sbss < layout.ebss ==> layout.ebss <= old(ram)@.len(),
    ensures
        final(ram)@ == with_zeroed(
            with_data(old(ram)@, image@, layout.sidata as int, layout.sdata as int, layout.edata as int),
            layout.sbss as int,
            layout.ebss as int,
        ),
{
    init_data(image, layout.sidata, ram, layout.sdata, layout.edata);
    zero_bss(ram, layout.sbss, layout.ebss);
}

/// When the two sections do not overlap, start-up leaves every data word equal to its load
/// image, every zero-initialised word zero, and every other word as it was.
pub proof fn lemma_startup_prepares_sections(
    ram: Seq<u32>,
    image: Seq<u32>,
    sidata: int,
    sdata: int,
    edata: int,
    sbss: int,
    ebss: int,
    i: int,
)
    requires
        edata <= sbss || ebss <= sdata,
        0 <= i < ram.len(),
    ensures
        ({
            let after = with_zeroed(with_data(ram, image, sidata, sdata, edata), sbss, ebss);
            &&& after.len() == ram.len()
            &&& sdata <= i < edata ==> after[i] == image[sidata + (i - sdata)]
            &&& sbss <= i < ebss ==> after[i] == 0
            &&& !(sdata <= i < edata) && !(sbss <= i < ebss) ==> after[i] == ram[i]
        }),
{
}

} // verus!

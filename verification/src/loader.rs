//! Object images: a big-endian origin word followed by big-endian program
//! words, loaded into memory from the origin on.
use vstd::prelude::*;

use crate::hardware::vm::{MachineState, VM};
use crate::hardware::MEMORY_SIZE;

verus! {

/// `byteorder::BigEndian::read_u16` (through the `ByteOrder` trait): the first
/// two bytes of `buf` read as a big-endian word, the first byte being the
/// high one. It panics when `buf` holds fewer than two bytes.
#[verifier::external_body]
fn read_be_u16(buf: &[u8]) -> (w: u16)
    requires
        buf@.len() >= 2,
    ensures
        w as int == buf@[0] as int * 256 + buf@[1] as int,
{
    <byteorder::BigEndian as byteorder::ByteOrder>::read_u16(buf)
}

/// Word `k` of an image (word 0 is the origin): bytes `2k` and `2k + 1`, big-endian.
pub open spec fn image_word(image: Seq<u8>, k: int) -> u16 {
    (image[2 * k] as int * 256 + image[2 * k + 1] as int) as u16
}

/// The address at which the program words are loaded.
pub open spec fn image_origin(image: Seq<u8>) -> int {
    image_word(image, 0) as int
}

/// The number of whole program words after the origin; a trailing odd byte is ignored.
pub open spec fn image_len(image: Seq<u8>) -> int {
    (image.len() - 2) / 2
}

/// The image has an origin word and its program words fit in memory.
pub open spec fn image_fits(image: Seq<u8>) -> bool {
    image.len() >= 2 && image_origin(image) + image_len(image) <= MEMORY_SIZE
}

/// The state after loading `image` into `s`: program word `k` (counting from
/// 0) at address origin + k, every other word and the registers as they were.
pub open spec fn loaded(s: MachineState, image: Seq<u8>) -> MachineState {
    MachineState {
        mem: Seq::new(
            s.mem.len(),
            |a: int|
                if image_origin(image) <= a < image_origin(image) + image_len(image) {
                    image_word(image, a - image_origin(image) + 1)
                } else {
                    s.mem[a]
                },
        ),
        regs: s.regs,
    }
}

/// Loads the object image `image` into memory.
pub fn load_program(vm: &mut VM, image: &[u8])
    requires
        image_fits(image@),
    ensures
        final(vm)@ == loaded(old(vm)@, image@),
{
    let origin_bytes: [u8; 2] = [image[0], image[1]];
    let base_address = read_be_u16(&origin_bytes);
    let mut address: usize = base_address as usize;
    let mut i: usize = 2;
    while i + 1 < image.len()
        invariant
            image_fits(image@),
            base_address == image_word(image@, 0),
            2 <= i <= image@.len(),
            i % 2 == 0,
            address == base_address + (i - 2) / 2,
            vm@.regs == old(vm)@.regs,
            vm@.mem.len() == MEMORY_SIZE,
            forall|a: int|
                0 <= a < MEMORY_SIZE ==> #[trigger] vm@.mem[a] == if base_address <= a < address {
                    image_word(image@, a - base_address + 1)
                } else {
                    old(vm)@.mem[a]
                },
        decreases image@.len() - i,
    {
        let pair: [u8; 2] = [image[i], image[i + 1]];
        let instr = read_be_u16(&pair);
        proof {
            let k = (i - 2) / 2 + 1;
            assert(2 * k == i);
            assert(instr == image_word(image@, k));
        }
        vm.write_mem(address, instr);
        address = address + 1;
        i = i + 2;
    }
    assert(vm@.mem =~= loaded(old(vm)@, image@).mem);
}

/// Loading places program word `k`, whose bytes are `2k + 2` (high) and
/// `2k + 3` (low) of the image, at the origin (bytes 0 and 1, high first)
/// plus `k`; every other word and every register stay as they were.
pub proof fn law_load_image(s: MachineState, image: Seq<u8>, a: int)
    requires
        s.wf(),
        image_fits(image),
        0 <= a < MEMORY_SIZE,
    ensures
        ({
            let origin = image[0] as int * 256 + image[1] as int;
            let n = (image.len() - 2) / 2;
            let t = loaded(s, image);
            &&& t.regs == s.regs
            &&& t.wf()
            &&& origin <= a < origin + n ==> t.mem[a] as int == image[2 * (a - origin) + 2] as int
                * 256 + image[2 * (a - origin) + 3] as int
            &&& !(origin <= a < origin + n) ==> t.mem[a] == s.mem[a]
        }),
{
    let origin = image[0] as int * 256 + image[1] as int;
    assert(image_origin(image) == origin);
    if origin <= a < origin + image_len(image) {
        let k = a - origin + 1;
        assert(2 * k == 2 * (a - origin) + 2);
    }
}

/// Whether `load_program` can load `image`: it holds an origin word and its
/// program words fit in memory.
pub fn image_fits_memory(image: &[u8]) -> (ok: bool)
    ensures
        ok == image_fits(image@),
{
    if image.len() < 2 {
        return false;
    }
    let origin_bytes: [u8; 2] = [image[0], image[1]];
    let base_address = read_be_u16(&origin_bytes);
    (base_address as usize) + (image.len() - 2) / 2 <= MEMORY_SIZE
}

} // verus!

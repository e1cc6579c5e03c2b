use vstd::prelude::*;

verus! {

/// The port's output data after the bit set/reset word `w` was written to it: the low half of
/// `w` sets pins, the high half resets them, and setting wins when both name a pin.
pub open spec fn odr_after_bsrr(odr: u32, w: u32) -> u32 {
    ((odr & !(w >> 16u32)) | (w & 0xffffu32)) & 0xffffu32
}

/// The bit set/reset word that switches the LED on (reset pin 12, driving it low) or off
/// (set pin 12, driving it high).
pub open spec fn led_word(on: bool) -> u32 {
    if on {
        1u32 << 28u32
    } else {
        1u32 << 12u32
    }
}

/// The word to write to port B's bit set/reset register to switch the LED on or off. The
/// LED on PB12 lights when the pin is driven low.
pub fn set(on: bool) -> (w: u32)
    ensures
        w == led_word(on),
{
    if on {
        1u32 << 28u32
    } else {
        1u32 << 12u32
    }
}

/// Writing the LED word drives pin 12 low to switch the LED on and high to switch it off,
/// and leaves the port's other pins as they were.
pub proof fn lemma_led_word_drives_only_pin12(odr: u32, on: bool)
    requires
        odr <= 0xffff,
    ensures
        (odr_after_bsrr(odr, led_word(on)) >> 12u32) & 1u32 == (if on { 0u32 } else { 1u32 }),
        odr_after_bsrr(odr, led_word(on)) & !(1u32 << 12u32) == odr & !(1u32 << 12u32),
{
    if on {
        assert((((odr & !((1u32 << 28u32) >> 16u32)) | ((1u32 << 28u32) & 0xffffu32)) & 0xffffu32) >> 12u32 & 1u32 == 0u32) by (bit_vector);
        assert(((odr & !((1u32 << 28u32) >> 16u32)) | ((1u32 << 28u32) & 0xffffu32)) & 0xffffu32 & !(1u32 << 12u32) == odr & !(1u32 << 12u32)) by (bit_vector)
            requires
                odr <= 0xffff,
        ;
    } else {
        assert((((odr & !((1u32 << 12u32) >> 16u32)) | ((1u32 << 12u32) & 0xffffu32)) & 0xffffu32) >> 12u32 & 1u32 == 1u32) by (bit_vector);
        assert(((odr & !((1u32 << 12u32) >> 16u32)) | ((1u32 << 12u32) & 0xffffu32)) & 0xffffu32 & !(1u32 << 12u32) == odr & !(1u32 << 12u32)) by (bit_vector)
            requires
                odr <= 0xffff,
        ;
    }
}

} // verus!

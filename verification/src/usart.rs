use vstd::prelude::*;

verus! {

/// The serial port (USART2, transmitting on PA2) that the kernel and the tasks print to.
#[derive(Debug, Clone, Copy)]
pub struct USART;

/// What the transmitter does next while writing a text.
#[derive(Debug, Clone, Copy, PartialEq, Eq, Structural)]
pub enum TxAction {
    /// The data register is still busy: poll the status register again.
    Wait,
    /// Put this byte into the data register.
    Send(u8),
    /// Every byte of the text has been handed over.
    Finished,
}

/// The next action while writing `s`, when `sent` bytes of it are out and the status register
/// reports the data register empty (`txe`) or not.
pub open spec fn tx_action(s: Seq<u8>, sent: nat, txe: bool) -> TxAction {
    if sent >= s.len() {
        TxAction::Finished
    } else if txe {
        TxAction::Send(s[sent as int])
    } else {
        TxAction::Wait
    }
}

/// How many of the status observations report the data register empty.
pub open spec fn ready_count(events: Seq<bool>) -> nat
    decreases events.len(),
{
    if events.len() == 0 {
        0
    } else {
        (if events[0] { 1nat } else { 0nat }) + ready_count(events.drop_first())
    }
}

/// The bytes put into the data register while writing `s` from byte `sent` on, when the
/// status register reads as `events` one poll after the other.
pub open spec fn tx_run(s: Seq<u8>, sent: nat, events: Seq<bool>) -> Seq<u8>
    decreases events.len(),
{
    if events.len() == 0 {
        Seq::empty()
    } else {
        match tx_action(s, sent, events[0]) {
            TxAction::Send(b) => seq![b] + tx_run(s, sent + 1, events.drop_first()),
            TxAction::Wait => tx_run(s, sent, events.drop_first()),
            TxAction::Finished => Seq::empty(),
        }
    }
}

/// The clock of the APB1 bus that feeds USART2, in Hz.
pub const APB1_CLOCK_HZ: u32 = 36_000_000;

/// The serial line's speed, in baud.
pub const BAUD_RATE: u32 = 115_200;

/// The baud-rate register fields for a port clocked at `pclk` Hz running at `baud` baud:
/// the divider `pclk / baud / 16` split into its integer part (the mantissa) and its
/// fractional part in sixteenths, rounded down.
pub fn brr_divider(pclk: u32, baud: u32) -> (fields: (u32, u32))
    requires
        baud > 0,
    ensures
        fields.0 * 16 + fields.1 == pclk / baud,
        fields.1 < 16,
{
    let ticks = pclk / baud;
    (ticks / 16, ticks % 16)
}

/// Whether bit `b` of the register word `w` is set.
pub open spec fn bit_set(w: u32, b: u32) -> bool {
    (w >> b) & 1u32 == 1u32
}

/// The control register word that enables the port, its transmitter and its receiver, with
/// 8 data bits (M clear) and no parity (PCE clear). Bits: UE 13, M 12, PCE 10, TE 3, RE 2.
pub fn cr1_word() -> (w: u32)
    ensures
        w == (1u32 << 13u32) | (1u32 << 3u32) | (1u32 << 2u32),
        bit_set(w, 13),
        bit_set(w, 3),
        bit_set(w, 2),
        !bit_set(w, 12),
        !bit_set(w, 10),
{
    let w: u32 = (1u32 << 13u32) | (1u32 << 3u32) | (1u32 << 2u32);
    assert(((w >> 13u32) & 1u32 == 1u32) && ((w >> 3u32) & 1u32 == 1u32) && ((w >> 2u32) & 1u32
        == 1u32) && ((w >> 12u32) & 1u32 == 0u32) && ((w >> 10u32) & 1u32 == 0u32)) by (bit_vector)
        requires
            w == (1u32 << 13u32) | (1u32 << 3u32) | (1u32 << 2u32),
    ;
    w
}

impl USART {
    /// One step of writing the text `s`: `sent` bytes of it are out, and `txe` is what the
    /// status register reports of the data register. Bytes go out in order, each only once
    /// the data register is empty.
    pub fn write_str_step(&self, s: &[u8], sent: usize, txe: bool) -> (a: TxAction)
        requires
            sent <= s@.len(),
        ensures
            a == tx_action(s@, sent as nat, txe),
            sent == s@.len() ==> a == TxAction::Finished,
            sent < s@.len() && txe ==> a == TxAction::Send(s@[sent as int]),
            sent < s@.len() && !txe ==> a == TxAction::Wait,
    {
        if sent >= s.len() {
            TxAction::Finished
        } else if txe {
            TxAction::Send(s[sent])
        } else {
            TxAction::Wait
        }
    }
}

/// What a transmit step does: once every byte of the text is out the write is finished,
/// whatever the status register reports (the last byte is not waited for); while a byte is
/// left it is sent exactly when the data register is empty, and the step waits only then.
pub proof fn lemma_tx_step_meaning(s: Seq<u8>, sent: nat, txe: bool)
    ensures
        sent >= s.len() ==> tx_action(s, sent, txe) == TxAction::Finished,
        tx_action(s, sent, txe) == TxAction::Finished ==> sent >= s.len(),
        tx_action(s, sent, txe) == TxAction::Wait <==> (sent < s.len() && !txe),
        forall|b: u8|
            tx_action(s, sent, txe) == TxAction::Send(b) <==> (sent < s.len() && txe && b == s[sent as int]),
{
}

/// Whatever the status register reports, writing a text puts into the data register exactly
/// the next bytes of the text, in order and each once, one for each poll that found the data
/// register empty, and never more than the text holds.
pub proof fn lemma_tx_sends_text_in_order(s: Seq<u8>, sent: nat, events: Seq<bool>)
    requires
        sent <= s.len(),
    ensures
        tx_run(s, sent, events) == s.subrange(
            sent as int,
            if sent + ready_count(events) <= s.len() {
                (sent + ready_count(events)) as int
            } else {
                s.len() as int
            },
        ),
    decreases events.len(),
{
    if events.len() == 0 {
        assert(s.subrange(sent as int, sent as int) =~= Seq::<u8>::empty());
    } else {
        let rest = events.drop_first();
        if sent >= s.len() {
            assert(s.subrange(sent as int, s.len() as int) =~= Seq::<u8>::empty());
        } else if events[0] {
            lemma_tx_sends_text_in_order(s, sent + 1, rest);
            let end: int = if sent + ready_count(events) <= s.len() {
                (sent + ready_count(events)) as int
            } else {
                s.len() as int
            };
            assert(seq![s[sent as int]] + s.subrange(sent + 1int, end) =~= s.subrange(sent as int, end));
        } else {
            lemma_tx_sends_text_in_order(s, sent, rest);
        }
    }
}

} // verus!

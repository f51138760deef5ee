//! CRC-16/MODBUS: reflected polynomial 0xA001, initial value 0xFFFF.
use vstd::prelude::*;

verus! {

/// One bit step of the CRC register.
pub open spec fn crc_bit_step(crc: u16) -> u16 {
    if crc % 2 == 1 {
        ((crc / 2) ^ 0xA001) as u16
    } else {
        crc / 2
    }
}

/// `n` bit steps of the CRC register.
pub open spec fn crc_bit_steps(crc: u16, n: nat) -> u16
    decreases n,
{
    if n == 0 {
        crc
    } else {
        crc_bit_step(crc_bit_steps(crc, (n - 1) as nat))
    }
}

/// The CRC register after absorbing one byte.
pub open spec fn crc_byte(crc: u16, b: u8) -> u16 {
    crc_bit_steps(crc ^ (b as u16), 8)
}

/// The CRC register after absorbing the bytes in order, from `init`.
pub open spec fn crc_update(init: u16, data: Seq<u8>) -> u16
    decreases data.len(),
{
    if data.len() == 0 {
        init
    } else {
        crc_byte(crc_update(init, data.drop_last()), data.last())
    }
}

/// CRC-16/MODBUS of a byte string.
pub open spec fn modbus_crc(data: Seq<u8>) -> u16 {
    crc_update(0xFFFF, data)
}

/// CRC-16/MODBUS of `data`.
pub fn modbus_crc16(data: &[u8]) -> (crc: u16)
    ensures
        crc == modbus_crc(data@),
{
    let mut crc: u16 = 0xFFFF;
    let mut i: usize = 0;
    while i < data.len()
        invariant
            i <= data@.len(),
            crc == crc_update(0xFFFF, data@.subrange(0, i as int)),
        decreases data@.len() - i,
    {
        let ghost prefix = data@.subrange(0, i + 1);
        assert(prefix.drop_last() =~= data@.subrange(0, i as int));
        crc = crc ^ (data[i] as u16);
        let ghost start = crc;
        let mut k: u32 = 0;
        while k < 8
            invariant
                k <= 8,
                crc == crc_bit_steps(start, k as nat),
            decreases 8 - k,
        {
            let ghost before = crc;
            if crc & 1 != 0 {
                crc = (crc >> 1) ^ 0xA001;
            } else {
                crc = crc >> 1;
            }
            assert((before & 1 != 0) == (before % 2 == 1)) by (bit_vector);
            assert(before >> 1 == before / 2) by (bit_vector);
            k = k + 1;
        }
        i = i + 1;
    }
    assert(data@.subrange(0, i as int) =~= data@);
    crc
}

} // verus!

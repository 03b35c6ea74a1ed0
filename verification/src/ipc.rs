//! Packing of IPC command headers.

use vstd::prelude::*;

verus! {

/// The header word packs the command id into the top sixteen bits, the
/// normal-parameter count (capped to six bits) into bits 6..12, and the
/// translate-parameter count (capped to six bits) into the low six bits.
pub open spec fn ipc_header(
    command_id: u16,
    normal_params: usize,
    translate_params: usize,
) -> u32 {
    (command_id * 0x10000 + (normal_params as int % 64) * 64 + translate_params as int % 64) as u32
}

/// Builds the header word that precedes an IPC request in the command buffer.
#[allow(non_snake_case)]
pub fn IPC_MakeHeader(command_id: u16, normal_params: usize, translate_params: usize) -> (header:
    u32)
    ensures
        header == ipc_header(command_id, normal_params, translate_params),
{
    let cmd: u32 = command_id as u32;
    let np: u32 = (normal_params % 64) as u32;
    let tp: u32 = (translate_params % 64) as u32;
    let header = (cmd << 16) | (np << 6) | tp;
    proof {
        assert((cmd << 16) | (np << 6) | tp == cmd * 0x10000 + np * 64 + tp) by (bit_vector)
            requires
                cmd <= 0xFFFF,
                np < 64,
                tp < 64,
        ;
    }
    header
}

} // verus!

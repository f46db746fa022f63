//! Layout of the processor memory: which address range holds what.
use vstd::prelude::*;

verus! {

/// First address of the space for program instructions and variables.
pub const ADDR_PROG_AND_VAR_START: usize = 0;
/// Last address of the space for program instructions and variables.
pub const ADDR_PROG_AND_VAR_END: usize = 16384;
/// First address of the static data.
pub const ADDR_STATIC_DATA_START: usize = 16385;
/// Last address of the static data.
pub const ADDR_STATIC_DATA_END: usize = 24576;
/// First address of the dynamic data.
pub const ADDR_DYNAMIC_DATA_START: usize = 24577;
/// Last address of the dynamic data.
pub const ADDR_DYNAMIC_DATA_END: usize = 30681;
/// Address reserved for system calls.
pub const ADDR_SYSTEM_CALL: usize = 30682;
/// First address of the gap above the top of the stack.
pub const ADDR_GAP_TOP_STACK_START: usize = 30683;
/// Last address of the gap above the top of the stack.
pub const ADDR_GAP_TOP_STACK_END: usize = 30689;
/// First address of the stack.
pub const ADDR_STACK_START: usize = 30690;
/// Last address of the stack (its base).
pub const ADDR_STACK_END: usize = 32738;
/// First address of the gap below the base of the stack.
pub const ADDR_GAP_BOTTOM_STACK_START: usize = 32739;
/// Last address of the gap below the base of the stack.
pub const ADDR_GAP_BOTTOM_STACK_END: usize = 32745;
/// Receive register address.
pub const ADDR_RX: usize = 32746;
/// Transmit register address.
pub const ADDR_TX: usize = 32747;
/// Timer address.
pub const ADDR_TIMER: usize = 32748;
/// First address of the arguments area.
pub const ADDR_ARGS_START: usize = 32749;
/// Last address of the arguments area.
pub const ADDR_ARGS_END: usize = 32758;
/// Return value address.
pub const ADDR_RETURN: usize = 32759;

/// The name of the area of memory that holds `addr`.
pub open spec fn data_area_spec(addr: usize) -> Seq<char> {
    if addr <= ADDR_PROG_AND_VAR_END {
        "ADDR_PROG_AND_VAR"@
    } else if ADDR_STATIC_DATA_START <= addr <= ADDR_STATIC_DATA_END {
        "ADDR_STATIC_DATA"@
    } else if ADDR_DYNAMIC_DATA_START <= addr <= ADDR_DYNAMIC_DATA_END {
        "ADDR_DYNAMIC_DATA"@
    } else if addr == ADDR_SYSTEM_CALL {
        "ADDR_SYSTEM_CALL"@
    } else if ADDR_GAP_TOP_STACK_START <= addr <= ADDR_GAP_TOP_STACK_END {
        "ADDR_GAP_TOP_STACK"@
    } else if ADDR_STACK_START <= addr <= ADDR_STACK_END {
        "ADDR_STACK"@
    } else if ADDR_GAP_BOTTOM_STACK_START <= addr <= ADDR_GAP_BOTTOM_STACK_END {
        "ADDR_GAP_BOTTOM_STACK"@
    } else if addr == ADDR_RX {
        "ADDR_RX"@
    } else if addr == ADDR_TX {
        "ADDR_TX"@
    } else if addr == ADDR_TIMER {
        "ADDR_TIMER"@
    } else if ADDR_ARGS_START <= addr <= ADDR_ARGS_END {
        "ADDR_ARGS"@
    } else if addr == ADDR_RETURN {
        "ADDR_RETURN"@
    } else {
        "Invalid Data Area"@
    }
}

/// The name of the area of memory that holds `addr`, or `"Invalid Data Area"`.
pub fn data_area(addr: usize) -> (s: String)
    ensures
        s@ == data_area_spec(addr),
{
    let name: &str = if addr <= ADDR_PROG_AND_VAR_END {
        "ADDR_PROG_AND_VAR"
    } else if ADDR_STATIC_DATA_START <= addr && addr <= ADDR_STATIC_DATA_END {
        "ADDR_STATIC_DATA"
    } else if ADDR_DYNAMIC_DATA_START <= addr && addr <= ADDR_DYNAMIC_DATA_END {
        "ADDR_DYNAMIC_DATA"
    } else if addr == ADDR_SYSTEM_CALL {
        "ADDR_SYSTEM_CALL"
    } else if ADDR_GAP_TOP_STACK_START <= addr && addr <= ADDR_GAP_TOP_STACK_END {
        "ADDR_GAP_TOP_STACK"
    } else if ADDR_STACK_START <= addr && addr <= ADDR_STACK_END {
        "ADDR_STACK"
    } else if ADDR_GAP_BOTTOM_STACK_START <= addr && addr <= ADDR_GAP_BOTTOM_STACK_END {
        "ADDR_GAP_BOTTOM_STACK"
    } else if addr == ADDR_RX {
        "ADDR_RX"
    } else if addr == ADDR_TX {
        "ADDR_TX"
    } else if addr == ADDR_TIMER {
        "ADDR_TIMER"
    } else if ADDR_ARGS_START <= addr && addr <= ADDR_ARGS_END {
        "ADDR_ARGS"
    } else if addr == ADDR_RETURN {
        "ADDR_RETURN"
    } else {
        "Invalid Data Area"
    };
    String::from_str(name)
}

} // verus!

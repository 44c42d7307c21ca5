//! FIX tag numbers and wire delimiters used by the serializer and parser.
use vstd::prelude::*;

verus! {

/// Field delimiter (SOH).
pub const SOH: u8 = 1u8;
/// Separator between a tag and its value.
pub const EQUALS: u8 = 61u8;

pub const AVG_PX: u32 = 6u32;
pub const BEGIN_SEQ_NO: u32 = 7u32;
pub const BEGIN_STRING: u32 = 8u32;
pub const BODY_LENGTH: u32 = 9u32;
pub const CHECK_SUM: u32 = 10u32;
pub const CL_ORD_ID: u32 = 11u32;
pub const CUM_QTY: u32 = 14u32;
pub const END_SEQ_NO: u32 = 16u32;
pub const EXEC_ID: u32 = 17u32;
pub const HANDL_INST: u32 = 21u32;
pub const LAST_PX: u32 = 31u32;
pub const LAST_QTY: u32 = 32u32;
pub const MSG_SEQ_NUM: u32 = 34u32;
pub const MSG_TYPE: u32 = 35u32;
pub const NEW_SEQ_NO: u32 = 36u32;
pub const ORDER_ID: u32 = 37u32;
pub const ORDER_QTY: u32 = 38u32;
pub const ORD_STATUS: u32 = 39u32;
pub const ORD_TYPE: u32 = 40u32;
pub const ORIG_CL_ORD_ID: u32 = 41u32;
pub const POSS_DUP_FLAG: u32 = 43u32;
pub const PRICE: u32 = 44u32;
pub const REF_SEQ_NUM: u32 = 45u32;
pub const SENDER_COMP_ID: u32 = 49u32;
pub const SENDING_TIME: u32 = 52u32;
pub const SIDE: u32 = 54u32;
pub const SYMBOL: u32 = 55u32;
pub const TARGET_COMP_ID: u32 = 56u32;
pub const TEXT: u32 = 58u32;
pub const TRANSACT_TIME: u32 = 60u32;
pub const ENCRYPT_METHOD: u32 = 98u32;
pub const CXL_REJ_REASON: u32 = 102u32;
pub const HEARTBT_INT: u32 = 108u32;
pub const TEST_REQ_ID: u32 = 112u32;
pub const GAP_FILL_FLAG: u32 = 123u32;
pub const RESET_SEQ_NUM_FLAG: u32 = 141u32;
pub const EXEC_TYPE: u32 = 150u32;
pub const LEAVES_QTY: u32 = 151u32;
pub const SESSION_REJECT_REASON: u32 = 373u32;
pub const CXL_REJ_RESPONSE_TO: u32 = 434u32;

} // verus!

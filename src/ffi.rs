//! Serialized results of the protocol rounds as handed across a C
//! boundary: each buffer holds one encoded state or message.
use vstd::prelude::*;

verus! {

/// Encoded outputs of one round.
#[allow(non_camel_case_types)]
#[derive(Clone, Debug, Default)]
pub struct FFI_AbtCreateMsg1Result {
    /// encoded state cb r1
    pub state_cb_r1: Vec<u8>,
    /// encoded msg1
    pub msg1: Vec<u8>,
}

/// Encoded outputs of one round.
#[allow(non_camel_case_types)]
#[derive(Clone, Debug, Default)]
pub struct FFI_AbtProcessMsg1Result {
    /// encoded state ob r1
    pub state_ob_r1: Vec<u8>,
    /// encoded shares ob
    pub shares_ob: Vec<u8>,
    /// encoded auth triples ob
    pub auth_triples_ob: Vec<u8>,
    /// encoded msg2
    pub msg2: Vec<u8>,
}

/// Encoded outputs of one round.
#[allow(non_camel_case_types)]
#[derive(Clone, Debug, Default)]
pub struct FFI_AbtProcessMsg2Result {
    /// encoded state cb r2
    pub state_cb_r2: Vec<u8>,
    /// encoded shares cb
    pub shares_cb: Vec<u8>,
    /// encoded auth triples cb
    pub auth_triples_cb: Vec<u8>,
    /// encoded msg3
    pub msg3: Vec<u8>,
}

/// Encoded outputs of one round.
#[allow(non_camel_case_types)]
#[derive(Clone, Debug, Default)]
pub struct FFI_AbtProcessMsg3Result {
    /// encoded state ob r2
    pub state_ob_r2: Vec<u8>,
    /// encoded shares ob
    pub shares_ob: Vec<u8>,
    /// encoded auth triples ob
    pub auth_triples_ob: Vec<u8>,
    /// encoded msg4
    pub msg4: Vec<u8>,
}

/// Encoded outputs of one round.
#[allow(non_camel_case_types)]
#[derive(Clone, Debug, Default)]
pub struct FFI_AbtProcessMsg4Result {
    /// encoded msg5
    pub msg5: Vec<u8>,
}

/// Encoded outputs of one round.
#[allow(non_camel_case_types)]
#[derive(Clone, Debug, Default)]
pub struct FFI_CfmCreateMsg1Result {
    /// encoded cfm state ob r1
    pub cfm_state_ob_r1: Vec<u8>,
    /// encoded msg1
    pub msg1: Vec<u8>,
}

/// Encoded outputs of one round.
#[allow(non_camel_case_types)]
#[derive(Clone, Debug, Default)]
pub struct FFI_CfmProcessMsg1Result {
    /// encoded cfm state cb r1
    pub cfm_state_cb_r1: Vec<u8>,
    /// encoded msg2
    pub msg2: Vec<u8>,
}

/// Encoded outputs of one round.
#[allow(non_camel_case_types)]
#[derive(Clone, Debug, Default)]
pub struct FFI_CfmProcessMsg2Result {
    /// encoded cfm state ob r2
    pub cfm_state_ob_r2: Vec<u8>,
    /// encoded msg3
    pub msg3: Vec<u8>,
}

/// Encoded outputs of one round.
#[allow(non_camel_case_types)]
#[derive(Clone, Debug, Default)]
pub struct FFI_CfmProcessMsg3Result {
    /// encoded cfm state cb r2
    pub cfm_state_cb_r2: Vec<u8>,
    /// encoded msg4
    pub msg4: Vec<u8>,
}

/// Encoded outputs of one round.
#[allow(non_camel_case_types)]
#[derive(Clone, Debug, Default)]
pub struct FFI_CfmProcessMsg4Result {
    /// encoded cfm state ob r3
    pub cfm_state_ob_r3: Vec<u8>,
    /// encoded msg5
    pub msg5: Vec<u8>,
}

/// Encoded outputs of one round.
#[allow(non_camel_case_types)]
#[derive(Clone, Debug, Default)]
pub struct FFI_CfmProcessMsg5Result {
    /// encoded cfm state cb r3
    pub cfm_state_cb_r3: Vec<u8>,
    /// encoded msg6
    pub msg6: Vec<u8>,
}

/// Encoded outputs of one round.
#[allow(non_camel_case_types)]
#[derive(Clone, Debug, Default)]
pub struct FFI_CfmProcessMsg6Result {
    /// encoded cfm state ob r4
    pub cfm_state_ob_r4: Vec<u8>,
    /// encoded msg7
    pub msg7: Vec<u8>,
}

/// Encoded outputs of one round.
#[allow(non_camel_case_types)]
#[derive(Clone, Debug, Default)]
pub struct FFI_CfmProcessMsg7Result {
    /// encoded cfm state cb r4
    pub cfm_state_cb_r4: Vec<u8>,
    /// encoded msg8
    pub msg8: Vec<u8>,
}

/// Encoded outputs of one round.
#[allow(non_camel_case_types)]
#[derive(Clone, Debug, Default)]
pub struct FFI_CfmProcessMsg8Result {
    /// encoded cfm state ob r5
    pub cfm_state_ob_r5: Vec<u8>,
    /// encoded msg9
    pub msg9: Vec<u8>,
}

/// Encoded outputs of one round.
#[allow(non_camel_case_types)]
#[derive(Clone, Debug, Default)]
pub struct FFI_CfmProcessMsg9Result {
    /// encoded cfm state cb r5
    pub cfm_state_cb_r5: Vec<u8>,
    /// encoded msg10
    pub msg10: Vec<u8>,
}

/// Encoded outputs of one round.
#[allow(non_camel_case_types)]
#[derive(Clone, Debug, Default)]
pub struct FFI_CfmProcessMsg10Result {
    /// encoded cfm state ob r6
    pub cfm_state_ob_r6: Vec<u8>,
    /// encoded msg11
    pub msg11: Vec<u8>,
}

/// Encoded outputs of one round.
#[allow(non_camel_case_types)]
#[derive(Clone, Debug, Default)]
pub struct FFI_CfmProcessMsg11Result {
    /// encoded cfm state cb r6
    pub cfm_state_cb_r6: Vec<u8>,
    /// encoded msg12
    pub msg12: Vec<u8>,
}

/// Encoded outputs of one round.
#[allow(non_camel_case_types)]
#[derive(Clone, Debug, Default)]
pub struct FFI_CfmProcessMsg12Result {
    /// encoded cfm state ob r7
    pub cfm_state_ob_r7: Vec<u8>,
    /// encoded msg13
    pub msg13: Vec<u8>,
}

/// Encoded outputs of one round.
#[allow(non_camel_case_types)]
#[derive(Clone, Debug, Default)]
pub struct FFI_CfmProcessMsg13Result {
    /// encoded cfm state cb r7
    pub cfm_state_cb_r7: Vec<u8>,
    /// encoded msg14
    pub msg14: Vec<u8>,
}

/// Encoded outputs of one round.
#[allow(non_camel_case_types)]
#[derive(Clone, Debug, Default)]
pub struct FFI_CfmProcessMsg14Result {
    /// encoded cfm state ob r8
    pub cfm_state_ob_r8: Vec<u8>,
    /// encoded msg15
    pub msg15: Vec<u8>,
}

/// Encoded outputs of one round.
#[allow(non_camel_case_types)]
#[derive(Clone, Debug, Default)]
pub struct FFI_CfmProcessMsg15Result {
    /// encoded cfm state cb r8
    pub cfm_state_cb_r8: Vec<u8>,
    /// encoded msg16
    pub msg16: Vec<u8>,
}

/// Encoded outputs of one round.
#[allow(non_camel_case_types)]
#[derive(Clone, Debug, Default)]
pub struct FFI_CfmProcessMsg16Result {
    /// encoded cfm state ob r9
    pub cfm_state_ob_r9: Vec<u8>,
    /// encoded msg17
    pub msg17: Vec<u8>,
}

/// Encoded outputs of one round.
#[allow(non_camel_case_types)]
#[derive(Clone, Debug, Default)]
pub struct FFI_CfmProcessMsg17Result {
    /// encoded b cb value
    pub b_cb_value: Vec<u8>,
    /// encoded msg18
    pub msg18: Vec<u8>,
}

/// Encoded outputs of one round.
#[allow(non_camel_case_types)]
#[derive(Clone, Debug, Default)]
pub struct FFI_CfmProcessMsg18Result {
    /// encoded b ob value
    pub b_ob_value: Vec<u8>,
}

} // verus!

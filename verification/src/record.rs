use vstd::prelude::*;

use crate::cipher::{decipher, decipher_bytes};
use crate::errors::CodecError;
use crate::keystream::CRASH_METRICS_SIZE;
use crate::wire::{
    le_u32_at, le_u64_at, padded_value, read_padded, read_u32_le, read_u64_le, copy_range,
    lemma_padded_value_len,
};

verus! {

// Fixed wire layout of one decrypted record: every field sits at a constant
// offset, and every padded string owns a region of a constant size that the
// cursor skips whole, wherever its terminator lies.
pub const MAGIC_OFFSET: usize = 0;
pub const MAGIC_SIZE: usize = 4;
pub const VERSION_OFFSET: usize = MAGIC_OFFSET + MAGIC_SIZE;
pub const UPTIMEMS_OFFSET: usize = VERSION_OFFSET + 4;
pub const SCENE_OFFSET: usize = UPTIMEMS_OFFSET + 8;
pub const SCENE_SIZE: usize = 0x100;
pub const NET_ROLE_OFFSET: usize = SCENE_OFFSET + SCENE_SIZE;
pub const NET_ROLE_SIZE: usize = 0x20;
pub const ONLINE_SERVER_VERSION_OFFSET: usize = NET_ROLE_OFFSET + NET_ROLE_SIZE;
pub const ONLINE_SERVER_VERSION_SIZE: usize = 0x20;
pub const SYSTEM_INFO_OFFSET: usize = ONLINE_SERVER_VERSION_OFFSET + ONLINE_SERVER_VERSION_SIZE;
pub const SYSTEM_INFO_SIZE: usize = 0x200;
pub const SETTINGS_INFO_OFFSET: usize = SYSTEM_INFO_OFFSET + SYSTEM_INFO_SIZE;
pub const SETTINGS_INFO_SIZE: usize = 0x400;
pub const GPU_CRASH_REPORT_OFFSET: usize = SETTINGS_INFO_OFFSET + SETTINGS_INFO_SIZE;
pub const GPU_CRASH_REPORT_SIZE: usize = 0x4000;
pub const VR_DATA_OFFSET: usize = GPU_CRASH_REPORT_OFFSET + GPU_CRASH_REPORT_SIZE;
pub const VR_DATA_SIZE: usize = 0x80;
pub const VR_HDM_DESCRIPTION_OFFSET: usize = VR_DATA_OFFSET + VR_DATA_SIZE;
pub const VR_HDM_DESCRIPTION_SIZE: usize = 0x200;
pub const OPERATING_SYSTEM_OFFSET: usize = VR_HDM_DESCRIPTION_OFFSET + VR_HDM_DESCRIPTION_SIZE;
pub const OPERATING_SYSTEM_SIZE: usize = 0x80;
pub const MODULES_OFFSET: usize = OPERATING_SYSTEM_OFFSET + OPERATING_SYSTEM_SIZE;
pub const MODULES_SIZE: usize = 0x4000;
pub const CALLSTACK_OFFSET: usize = MODULES_OFFSET + MODULES_SIZE;
pub const CALLSTACK_SIZE: usize = 0x800;
pub const CAMERA_OFFSET: usize = CALLSTACK_OFFSET + CALLSTACK_SIZE;
pub const CAMERA_SIZE: usize = 0x100;
pub const EXCEPTION_OFFSET: usize = CAMERA_OFFSET + CAMERA_SIZE;
pub const EXCEPTION_SIZE: usize = 48;
pub const UNKNOWN_OFFSET: usize = EXCEPTION_OFFSET + EXCEPTION_SIZE;
pub const UNKNOWN_SIZE: usize = 8;

/// The fixed exception sub-record at the tail of the report.
#[derive(Clone, Copy, Debug, Default, PartialEq, Eq, Structural)]
pub struct G2Exception {
    pub exception_code: u32,
    pub exception_flags: u32,
    pub exception_address: u64,
    pub exception_num_parameters: u64,
    pub exception_information_01: u64,
    pub exception_information_02: u64,
    pub exception_information_03: u64,
}

/// One decoded crash report.
///
/// Each string field holds the logical value of its padded wire region: the
/// bytes before the region's first null terminator, kept as raw bytes since
/// the wire text is only loosely UTF-8.  A record is built once per decode
/// and is plain immutable data afterwards.
#[derive(Clone, Debug)]
pub struct G2CrashMetrics {
    pub version: u32,
    pub uptimems: u64,
    pub scene: Vec<u8>,
    pub net_role: Vec<u8>,
    pub online_server_version: Vec<u8>,
    pub system_info: Vec<u8>,
    pub settings_info: Vec<u8>,
    pub gpu_crash_report: Vec<u8>,
    pub vr_data: Vec<u8>,
    pub vr_hdm_description: Vec<u8>,
    pub operating_system: Vec<u8>,
    pub modules: Vec<u8>,
    pub callstack: Vec<u8>,
    pub camera: Vec<u8>,
    pub exception: G2Exception,
    pub unknown: Vec<u8>,
}

/// Whether the buffer starts with the record magic `MC2G`.
pub open spec fn magic_ok(p: Seq<u8>) -> bool {
    p.len() >= 4 && p[0] == 0x4D && p[1] == 0x43 && p[2] == 0x32 && p[3] == 0x47
}

/// The logical value of the padded string region of `size` bytes at `off`.
pub open spec fn string_field(p: Seq<u8>, off: usize, size: usize) -> Seq<u8> {
    padded_value(p.subrange(off as int, off + size))
}

/// The exception sub-record stored at its fixed offset of `p`.
pub open spec fn exception_of(p: Seq<u8>) -> G2Exception {
    G2Exception {
        exception_code: le_u32_at(p, EXCEPTION_OFFSET as int) as u32,
        exception_flags: le_u32_at(p, EXCEPTION_OFFSET + 4) as u32,
        exception_address: le_u64_at(p, EXCEPTION_OFFSET + 8) as u64,
        exception_num_parameters: le_u64_at(p, EXCEPTION_OFFSET + 16) as u64,
        exception_information_01: le_u64_at(p, EXCEPTION_OFFSET + 24) as u64,
        exception_information_02: le_u64_at(p, EXCEPTION_OFFSET + 32) as u64,
        exception_information_03: le_u64_at(p, EXCEPTION_OFFSET + 40) as u64,
    }
}

/// Everything `parse` promises of a record decoded from plaintext `p`.
pub open spec fn is_parse_of(rec: G2CrashMetrics, p: Seq<u8>) -> bool {
    &&& rec.version == le_u32_at(p, VERSION_OFFSET as int)
    &&& rec.uptimems == le_u64_at(p, UPTIMEMS_OFFSET as int)
    &&& rec.scene@ == string_field(p, SCENE_OFFSET, SCENE_SIZE)
    &&& rec.net_role@ == string_field(p, NET_ROLE_OFFSET, NET_ROLE_SIZE)
    &&& rec.online_server_version@ == string_field(
        p,
        ONLINE_SERVER_VERSION_OFFSET,
        ONLINE_SERVER_VERSION_SIZE,
    )
    &&& rec.system_info@ == string_field(p, SYSTEM_INFO_OFFSET, SYSTEM_INFO_SIZE)
    &&& rec.settings_info@ == string_field(p, SETTINGS_INFO_OFFSET, SETTINGS_INFO_SIZE)
    &&& rec.gpu_crash_report@ == string_field(p, GPU_CRASH_REPORT_OFFSET, GPU_CRASH_REPORT_SIZE)
    &&& rec.vr_data@ == string_field(p, VR_DATA_OFFSET, VR_DATA_SIZE)
    &&& rec.vr_hdm_description@ == string_field(
        p,
        VR_HDM_DESCRIPTION_OFFSET,
        VR_HDM_DESCRIPTION_SIZE,
    )
    &&& rec.operating_system@ == string_field(p, OPERATING_SYSTEM_OFFSET, OPERATING_SYSTEM_SIZE)
    &&& rec.modules@ == string_field(p, MODULES_OFFSET, MODULES_SIZE)
    &&& rec.callstack@ == string_field(p, CALLSTACK_OFFSET, CALLSTACK_SIZE)
    &&& rec.camera@ == string_field(p, CAMERA_OFFSET, CAMERA_SIZE)
    &&& rec.exception == exception_of(p)
    &&& rec.unknown@ == p.subrange(UNKNOWN_OFFSET as int, UNKNOWN_OFFSET + UNKNOWN_SIZE)
}

/// Bounds that every decoded record satisfies: every string value leaves
/// room for its terminator, so it is strictly shorter than its wire region,
/// and the reserved tail keeps its fixed size.
pub open spec fn record_wf(rec: G2CrashMetrics) -> bool {
    &&& rec.scene@.len() <= SCENE_SIZE - 1
    &&& rec.net_role@.len() <= NET_ROLE_SIZE - 1
    &&& rec.online_server_version@.len() <= ONLINE_SERVER_VERSION_SIZE - 1
    &&& rec.system_info@.len() <= SYSTEM_INFO_SIZE - 1
    &&& rec.settings_info@.len() <= SETTINGS_INFO_SIZE - 1
    &&& rec.gpu_crash_report@.len() <= GPU_CRASH_REPORT_SIZE - 1
    &&& rec.vr_data@.len() <= VR_DATA_SIZE - 1
    &&& rec.vr_hdm_description@.len() <= VR_HDM_DESCRIPTION_SIZE - 1
    &&& rec.operating_system@.len() <= OPERATING_SYSTEM_SIZE - 1
    &&& rec.modules@.len() <= MODULES_SIZE - 1
    &&& rec.callstack@.len() <= CALLSTACK_SIZE - 1
    &&& rec.camera@.len() <= CAMERA_SIZE - 1
    &&& rec.unknown@.len() == UNKNOWN_SIZE
}

/// Interprets a plaintext buffer as a crash report.
///
/// The magic must read `MC2G` and every fixed region must lie inside the
/// buffer; the field layout never varies (the stored version number selects
/// no alternate layout).  Bytes past the last field are ignored.
pub fn parse(plaintext: &Vec<u8>) -> (r: Result<G2CrashMetrics, CodecError>)
    ensures
        r is Ok <==> plaintext@.len() >= CRASH_METRICS_SIZE && magic_ok(plaintext@),
        r is Ok ==> is_parse_of(r->Ok_0, plaintext@) && record_wf(r->Ok_0),
        plaintext@.len() >= 4 && !magic_ok(plaintext@) ==> r == Err::<G2CrashMetrics, CodecError>(
            CodecError::MagicMismatch,
        ),
        plaintext@.len() < 4 || (magic_ok(plaintext@) && plaintext@.len() < CRASH_METRICS_SIZE)
            ==> r == Err::<G2CrashMetrics, CodecError>(CodecError::TruncatedRecord),
{
    if plaintext.len() < 4 {
        return Err(CodecError::TruncatedRecord);
    }
    if !(plaintext[0] == 0x4D && plaintext[1] == 0x43 && plaintext[2] == 0x32 && plaintext[3]
        == 0x47) {
        return Err(CodecError::MagicMismatch);
    }
    if plaintext.len() < CRASH_METRICS_SIZE {
        return Err(CodecError::TruncatedRecord);
    }
    let rec = G2CrashMetrics {
        version: read_u32_le(plaintext, VERSION_OFFSET),
        uptimems: read_u64_le(plaintext, UPTIMEMS_OFFSET),
        scene: read_padded(plaintext, SCENE_OFFSET, SCENE_SIZE),
        net_role: read_padded(plaintext, NET_ROLE_OFFSET, NET_ROLE_SIZE),
        online_server_version: read_padded(
            plaintext,
            ONLINE_SERVER_VERSION_OFFSET,
            ONLINE_SERVER_VERSION_SIZE,
        ),
        system_info: read_padded(plaintext, SYSTEM_INFO_OFFSET, SYSTEM_INFO_SIZE),
        settings_info: read_padded(plaintext, SETTINGS_INFO_OFFSET, SETTINGS_INFO_SIZE),
        gpu_crash_report: read_padded(plaintext, GPU_CRASH_REPORT_OFFSET, GPU_CRASH_REPORT_SIZE),
        vr_data: read_padded(plaintext, VR_DATA_OFFSET, VR_DATA_SIZE),
        vr_hdm_description: read_padded(
            plaintext,
            VR_HDM_DESCRIPTION_OFFSET,
            VR_HDM_DESCRIPTION_SIZE,
        ),
        operating_system: read_padded(plaintext, OPERATING_SYSTEM_OFFSET, OPERATING_SYSTEM_SIZE),
        modules: read_padded(plaintext, MODULES_OFFSET, MODULES_SIZE),
        callstack: read_padded(plaintext, CALLSTACK_OFFSET, CALLSTACK_SIZE),
        camera: read_padded(plaintext, CAMERA_OFFSET, CAMERA_SIZE),
        exception: G2Exception {
            exception_code: read_u32_le(plaintext, EXCEPTION_OFFSET),
            exception_flags: read_u32_le(plaintext, EXCEPTION_OFFSET + 4),
            exception_address: read_u64_le(plaintext, EXCEPTION_OFFSET + 8),
            exception_num_parameters: read_u64_le(plaintext, EXCEPTION_OFFSET + 16),
            exception_information_01: read_u64_le(plaintext, EXCEPTION_OFFSET + 24),
            exception_information_02: read_u64_le(plaintext, EXCEPTION_OFFSET + 32),
            exception_information_03: read_u64_le(plaintext, EXCEPTION_OFFSET + 40),
        },
        unknown: copy_range(plaintext, UNKNOWN_OFFSET, UNKNOWN_OFFSET + UNKNOWN_SIZE),
    };
    proof {
        lemma_padded_value_len(plaintext@.subrange(SCENE_OFFSET as int, SCENE_OFFSET + SCENE_SIZE));
        lemma_padded_value_len(
            plaintext@.subrange(NET_ROLE_OFFSET as int, NET_ROLE_OFFSET + NET_ROLE_SIZE),
        );
        lemma_padded_value_len(
            plaintext@.subrange(
                ONLINE_SERVER_VERSION_OFFSET as int,
                ONLINE_SERVER_VERSION_OFFSET + ONLINE_SERVER_VERSION_SIZE,
            ),
        );
        lemma_padded_value_len(
            plaintext@.subrange(SYSTEM_INFO_OFFSET as int, SYSTEM_INFO_OFFSET + SYSTEM_INFO_SIZE),
        );
        lemma_padded_value_len(
            plaintext@.subrange(
                SETTINGS_INFO_OFFSET as int,
                SETTINGS_INFO_OFFSET + SETTINGS_INFO_SIZE,
            ),
        );
        lemma_padded_value_len(
            plaintext@.subrange(
                GPU_CRASH_REPORT_OFFSET as int,
                GPU_CRASH_REPORT_OFFSET + GPU_CRASH_REPORT_SIZE,
            ),
        );
        lemma_padded_value_len(
            plaintext@.subrange(VR_DATA_OFFSET as int, VR_DATA_OFFSET + VR_DATA_SIZE),
        );
        lemma_padded_value_len(
            plaintext@.subrange(
                VR_HDM_DESCRIPTION_OFFSET as int,
                VR_HDM_DESCRIPTION_OFFSET + VR_HDM_DESCRIPTION_SIZE,
            ),
        );
        lemma_padded_value_len(
            plaintext@.subrange(
                OPERATING_SYSTEM_OFFSET as int,
                OPERATING_SYSTEM_OFFSET + OPERATING_SYSTEM_SIZE,
            ),
        );
        lemma_padded_value_len(
            plaintext@.subrange(MODULES_OFFSET as int, MODULES_OFFSET + MODULES_SIZE),
        );
        lemma_padded_value_len(
            plaintext@.subrange(CALLSTACK_OFFSET as int, CALLSTACK_OFFSET + CALLSTACK_SIZE),
        );
        lemma_padded_value_len(
            plaintext@.subrange(CAMERA_OFFSET as int, CAMERA_OFFSET + CAMERA_SIZE),
        );
    }
    Ok(rec)
}

/// Decodes an encrypted record file image: deciphers it, then parses the
/// plaintext.  This is the whole read path from raw file bytes to a record.
pub fn decode(ciphertext: &Vec<u8>) -> (r: Result<G2CrashMetrics, CodecError>)
    ensures
        ciphertext@.len() != CRASH_METRICS_SIZE ==> r == Err::<G2CrashMetrics, CodecError>(
            CodecError::UnexpectedLength,
        ),
        r is Ok <==> ciphertext@.len() == CRASH_METRICS_SIZE && magic_ok(
            decipher_bytes(ciphertext@),
        ),
        r is Ok ==> is_parse_of(r->Ok_0, decipher_bytes(ciphertext@)) && record_wf(r->Ok_0),
        ciphertext@.len() == CRASH_METRICS_SIZE && !magic_ok(decipher_bytes(ciphertext@)) ==> r
            == Err::<G2CrashMetrics, CodecError>(CodecError::MagicMismatch),
{
    let plaintext = match decipher(ciphertext) {
        Ok(p) => p,
        Err(e) => {
            return Err(e);
        },
    };
    parse(&plaintext)
}

} // verus!

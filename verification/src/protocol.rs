//! The IT8951's SCSI-over-USB protocol: command blocks, the byte layout of the
//! argument records that follow them, the bulk-only transport wrappers, and the
//! decoding of the controller's replies.
use vstd::prelude::*;

verus! {

/// Bulk endpoint the controller answers on.
pub const ENDPOINT_IN: u8 = 0x81;

/// Bulk endpoint the controller listens on.
pub const ENDPOINT_OUT: u8 = 0x02;

/// The largest data stage the controller takes in one command (60 KiB).
pub const MAX_TRANSFER: usize = 61440;

/// USB vendor id of the IT8951 controller.
pub const VENDOR_ID: u16 = 0x048d;

/// USB product id of the IT8951 controller.
pub const PRODUCT_ID: u16 = 0x8951;

/// SCSI INQUIRY: vendor, product and revision strings.
pub const INQUIRY_CMD: [u8; 16] = [0x12, 0, 0, 0, 0, 0, 0, 0, 0, 0, 0, 0, 0, 0, 0, 0];

/// IT8951 "get system info": resolution, firmware version, buffer addresses.
pub const GET_SYS_CMD: [u8; 16] = [
    0xfe, 0, 0x38, 0x39, 0x35, 0x31, 0x80, 0, 0x01, 0, 0x02, 0, 0, 0, 0, 0,
];

/// IT8951 "load image area": pixels into the controller's image buffer.
pub const LD_IMAGE_AREA_CMD: [u8; 16] = [
    0xfe, 0x00, 0x00, 0x00, 0x00, 0x00, 0xa2, 0, 0, 0, 0, 0, 0, 0, 0, 0,
];

/// IT8951 "display area": refresh a region of the panel from the image buffer.
pub const DPY_AREA_CMD: [u8; 16] = [
    0xfe, 0x00, 0x00, 0x00, 0x00, 0x00, 0x94, 0, 0, 0, 0, 0, 0, 0, 0, 0,
];

/// IT8951 power-management (PMIC) control; bytes 10 and 11 select the switch.
pub const PMIC_CONTROL: [u8; 16] = [
    0xfe, 0x00, 0x00, 0x00, 0x00, 0x00, 0xa3, 0x00, 0x00, 0x00, 0x00, 0x00, 0x00, 0x00, 0x00, 0x00,
];

/// Size in bytes of the INQUIRY reply.
pub const INQUIRY_LEN: usize = 36;

/// Size in bytes of the system-info reply.
pub const SYSTEM_INFO_LEN: usize = 112;

/// Size in bytes of a command block wrapper.
pub const CBW_LEN: usize = 31;

/// Size in bytes of a command status wrapper.
pub const CSW_LEN: usize = 13;

/// "USBC", the signature that opens every command block wrapper.
pub const CBW_SIGNATURE: u32 = 0x43425355;

/// "USBS", the signature that opens every command status wrapper.
pub const CSW_SIGNATURE: u32 = 0x53425355;

/// The four bytes of `v`, least significant first.
pub open spec fn le_bytes(v: u32) -> Seq<u8> {
    seq![
        (v % 0x100) as u8,
        ((v / 0x100) % 0x100) as u8,
        ((v / 0x10000) % 0x100) as u8,
        (v / 0x1000000) as u8,
    ]
}

/// The value of the four bytes of `s` at `at`, least significant first.
pub open spec fn le_u32_at(s: Seq<u8>, at: int) -> int {
    s[at] + s[at + 1] * 0x100 + s[at + 2] * 0x10000 + s[at + 3] * 0x1000000
}

/// The value of the four bytes of `s` at `at`, most significant first.
pub open spec fn be_u32_at(s: Seq<u8>, at: int) -> int {
    s[at] * 0x1000000 + s[at + 1] * 0x10000 + s[at + 2] * 0x100 + s[at + 3]
}

/// Appends the little-endian bytes of `v` to `out`.
pub fn push_le_u32(out: &mut Vec<u8>, v: u32)
    ensures
        final(out)@ == old(out)@ + le_bytes(v),
{
    out.push((v % 0x100) as u8);
    out.push(((v / 0x100) % 0x100) as u8);
    out.push(((v / 0x10000) % 0x100) as u8);
    out.push((v / 0x1000000) as u8);
    assert(out@ =~= old(out)@ + le_bytes(v));
}

/// The big-endian `u32` at `at` in `bytes`.
pub fn read_be_u32(bytes: &[u8], at: usize) -> (v: u32)
    requires
        at + 4 <= bytes@.len(),
    ensures
        v == be_u32_at(bytes@, at as int),
{
    let b0 = bytes[at] as u32;
    let b1 = bytes[at + 1] as u32;
    let b2 = bytes[at + 2] as u32;
    let b3 = bytes[at + 3] as u32;
    b0 * 0x1000000 + b1 * 0x10000 + b2 * 0x100 + b3
}

/// The little-endian `u32` at `at` in `bytes`.
pub fn read_le_u32(bytes: &[u8], at: usize) -> (v: u32)
    requires
        at + 4 <= bytes@.len(),
    ensures
        v == le_u32_at(bytes@, at as int),
{
    let b0 = bytes[at] as u32;
    let b1 = bytes[at + 1] as u32;
    let b2 = bytes[at + 2] as u32;
    let b3 = bytes[at + 3] as u32;
    b0 + b1 * 0x100 + b2 * 0x10000 + b3 * 0x1000000
}

/// The concatenated little-endian encodings of `values`: how the controller's
/// argument records, made only of `u32` fields, go over the wire.
pub open spec fn le_record(values: Seq<u32>) -> Seq<u8>
    decreases values.len(),
{
    if values.len() == 0 {
        seq![]
    } else {
        le_record(values.drop_last()) + le_bytes(values.last())
    }
}

/// The little-endian encodings of `values`, one after the other.
pub fn encode_le_record(values: &[u32]) -> (out: Vec<u8>)
    ensures
        out@ == le_record(values@),
{
    let mut out: Vec<u8> = Vec::new();
    let mut i: usize = 0;
    while i < values.len()
        invariant
            i <= values@.len(),
            out@ == le_record(values@.take(i as int)),
        decreases values@.len() - i,
    {
        let ghost before = out@;
        push_le_u32(&mut out, values[i]);
        assert(values@.take(i + 1).drop_last() =~= values@.take(i as int));
        i = i + 1;
    }
    assert(values@.take(values@.len() as int) =~= values@);
    out
}

/// A record of `n` little-endian fields is `4 * n` bytes long.
pub proof fn lemma_le_record_len(values: Seq<u32>)
    ensures
        le_record(values).len() == 4 * values.len(),
    decreases values.len(),
{
    if values.len() > 0 {
        lemma_le_record_len(values.drop_last());
    }
}

/// Field `k` of a little-endian record reads back as `values[k]`.
pub proof fn lemma_le_record_field(values: Seq<u32>, k: int)
    requires
        0 <= k < values.len(),
    ensures
        le_u32_at(le_record(values), 4 * k) == values[k],
    decreases values.len(),
{
    lemma_le_record_len(values.drop_last());
    if k < values.len() - 1 {
        lemma_le_record_field(values.drop_last(), k);
    }
}

} // verus!

verus! {

/// What follows a command block on the bus.
pub enum DataStage {
    /// The command carries no data.
    NoData,
    /// These bytes go to the controller.
    Send(Vec<u8>),
    /// This many bytes come back from the controller.
    Receive(u32),
}

/// The data stage as a mathematical value.
pub enum StageView {
    NoData,
    Send(Seq<u8>),
    Receive(u32),
}

impl View for DataStage {
    type V = StageView;

    open spec fn view(&self) -> StageView {
        match self {
            DataStage::NoData => StageView::NoData,
            DataStage::Send(bytes) => StageView::Send(bytes@),
            DataStage::Receive(n) => StageView::Receive(*n),
        }
    }
}

/// One SCSI command: a 16-byte command block and its data stage.
pub struct ScsiCommand {
    pub cdb: [u8; 16],
    pub stage: DataStage,
}

/// A command as a mathematical value.
pub struct CommandView {
    pub cdb: Seq<u8>,
    pub stage: StageView,
}

impl View for ScsiCommand {
    type V = CommandView;

    open spec fn view(&self) -> CommandView {
        CommandView { cdb: self.cdb@, stage: self.stage@ }
    }
}

/// The number of bytes in the data stage.
pub open spec fn stage_len(stage: StageView) -> int {
    match stage {
        StageView::NoData => 0,
        StageView::Send(bytes) => bytes.len() as int,
        StageView::Receive(n) => n as int,
    }
}

/// The direction flag of a command block wrapper: 0x80 when data comes in.
pub open spec fn stage_flag(stage: StageView) -> u8 {
    match stage {
        StageView::Receive(_) => 0x80,
        _ => 0x00,
    }
}

/// The 31-byte command block wrapper that carries `cmd` with tag `tag`: signature,
/// tag, data length, direction, LUN 0, command length 16, command block.
pub open spec fn cbw_bytes(tag: u32, cmd: CommandView) -> Seq<u8> {
    le_bytes(CBW_SIGNATURE) + le_bytes(tag) + le_bytes(stage_len(cmd.stage) as u32) + seq![
        stage_flag(cmd.stage),
        0u8,
        16u8,
    ] + cmd.cdb
}

impl ScsiCommand {
    /// The number of bytes in the data stage.
    pub fn data_len(&self) -> (n: usize)
        ensures
            n == stage_len(self@.stage),
    {
        match &self.stage {
            DataStage::NoData => 0,
            DataStage::Send(bytes) => bytes.len(),
            DataStage::Receive(n) => *n as usize,
        }
    }

    /// The command block wrapper that opens this command on the bus.
    pub fn block_wrapper(&self, tag: u32) -> (w: Vec<u8>)
        requires
            stage_len(self@.stage) <= u32::MAX,
        ensures
            w@ == cbw_bytes(tag, self@),
            w@.len() == CBW_LEN,
    {
        let mut w: Vec<u8> = Vec::new();
        push_le_u32(&mut w, CBW_SIGNATURE);
        push_le_u32(&mut w, tag);
        let n = self.data_len();
        push_le_u32(&mut w, n as u32);
        let flag: u8 = match &self.stage {
            DataStage::Receive(_) => 0x80,
            _ => 0x00,
        };
        w.push(flag);
        w.push(0);
        w.push(16);
        let ghost head = w@;
        let mut i: usize = 0;
        while i < 16
            invariant
                i <= 16,
                w@ == head + self.cdb@.take(i as int),
            decreases 16 - i,
        {
            w.push(self.cdb[i]);
            i = i + 1;
            assert(w@ =~= head + self.cdb@.take(i as int));
        }
        assert(self.cdb@.take(16) =~= self.cdb@);
        assert(w@ =~= cbw_bytes(tag, self@));
        w
    }
}

/// Why a command status wrapper does not report success.
#[derive(Debug, Clone, Copy, PartialEq, Eq)]
pub enum StatusError {
    /// Not 13 bytes, or not opened by the "USBS" signature.
    Malformed,
    /// It answers another command than the one sent.
    TagMismatch,
    /// The controller reports this failure status.
    Failed(u8),
}

/// What the command status wrapper `csw` says of the command sent with tag `tag`.
pub open spec fn status_result(csw: Seq<u8>, tag: u32) -> Result<(), StatusError> {
    if csw.len() != CSW_LEN || le_u32_at(csw, 0) != CSW_SIGNATURE {
        Err(StatusError::Malformed)
    } else if le_u32_at(csw, 4) != tag {
        Err(StatusError::TagMismatch)
    } else if csw[12] != 0 {
        Err(StatusError::Failed(csw[12]))
    } else {
        Ok(())
    }
}

/// Checks the command status wrapper that closes the command sent with tag `tag`.
pub fn check_status(csw: &[u8], tag: u32) -> (r: Result<(), StatusError>)
    ensures
        r == status_result(csw@, tag),
{
    if csw.len() != CSW_LEN || read_le_u32(csw, 0) != CSW_SIGNATURE {
        Err(StatusError::Malformed)
    } else if read_le_u32(csw, 4) != tag {
        Err(StatusError::TagMismatch)
    } else if csw[12] != 0 {
        Err(StatusError::Failed(csw[12]))
    } else {
        Ok(())
    }
}

} // verus!

verus! {

/// The controller's system information, as the get-system-info command returns it.
#[derive(Debug, Clone, Copy, PartialEq, Eq)]
pub struct SystemInfo {
    pub standard_cmd_no: u32,
    pub extended_cmd_no: u32,
    pub signature: u32,
    pub version: u32,
    pub width: u32,
    pub height: u32,
    pub update_buf_base: u32,
    pub image_buffer_base: u32,
    pub temperature_no: u32,
    pub mode: u32,
    pub frame_count: [u32; 8],
    pub num_img_buf: u32,
    pub reserved: [u32; 9],
}

impl SystemInfo {
    /// The 28 fields in wire order.
    pub open spec fn fields(self) -> Seq<u32> {
        seq![
            self.standard_cmd_no,
            self.extended_cmd_no,
            self.signature,
            self.version,
            self.width,
            self.height,
            self.update_buf_base,
            self.image_buffer_base,
            self.temperature_no,
            self.mode,
        ] + self.frame_count@ + seq![self.num_img_buf] + self.reserved@
    }

    /// The reply holds 28 big-endian fields, in declaration order.
    pub open spec fn decodes_from(self, reply: Seq<u8>) -> bool {
        &&& reply.len() == SYSTEM_INFO_LEN
        &&& forall|k: int| 0 <= k < 28 ==> #[trigger] self.fields()[k] == be_u32_at(reply, 4 * k)
    }

    /// Decodes the get-system-info reply; `None` unless it is exactly 112 bytes.
    pub fn decode(reply: &[u8]) -> (r: Option<SystemInfo>)
        ensures
            r is Some <==> reply@.len() == SYSTEM_INFO_LEN,
            r matches Some(info) ==> info.decodes_from(reply@),
    {
        if reply.len() != SYSTEM_INFO_LEN {
            return None;
        }
        let info = SystemInfo {
            standard_cmd_no: read_be_u32(reply, 0),
            extended_cmd_no: read_be_u32(reply, 4),
            signature: read_be_u32(reply, 8),
            version: read_be_u32(reply, 12),
            width: read_be_u32(reply, 16),
            height: read_be_u32(reply, 20),
            update_buf_base: read_be_u32(reply, 24),
            image_buffer_base: read_be_u32(reply, 28),
            temperature_no: read_be_u32(reply, 32),
            mode: read_be_u32(reply, 36),
            frame_count: [
                read_be_u32(reply, 40),
                read_be_u32(reply, 44),
                read_be_u32(reply, 48),
                read_be_u32(reply, 52),
                read_be_u32(reply, 56),
                read_be_u32(reply, 60),
                read_be_u32(reply, 64),
                read_be_u32(reply, 68),
            ],
            num_img_buf: read_be_u32(reply, 72),
            reserved: [
                read_be_u32(reply, 76),
                read_be_u32(reply, 80),
                read_be_u32(reply, 84),
                read_be_u32(reply, 88),
                read_be_u32(reply, 92),
                read_be_u32(reply, 96),
                read_be_u32(reply, 100),
                read_be_u32(reply, 104),
                read_be_u32(reply, 108),
            ],
        };
        assert forall|k: int| 0 <= k < 28 implies #[trigger] info.fields()[k] == be_u32_at(
            reply@,
            4 * k,
        ) by {
            assert(info.fields().len() == 28);
        }
        Some(info)
    }
}

} // verus!

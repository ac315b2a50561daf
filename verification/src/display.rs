//! The display as the library sees it: what the controller reported when it was
//! opened, and the commands that clear it, show an image, and switch its power.
//! Sending the commands over USB is left to the caller.
use vstd::prelude::*;

use crate::protocol::{
    le_record, encode_le_record, CommandView, DataStage, ScsiCommand, StageView, SystemInfo,
    DPY_AREA_CMD, GET_SYS_CMD, INQUIRY_CMD, INQUIRY_LEN, LD_IMAGE_AREA_CMD, MAX_TRANSFER,
    PMIC_CONTROL, SYSTEM_INFO_LEN,
};
use crate::picture::{fill_to_grey, Picture};
use crate::raster::rotate180;
use crate::text::{
    chars_of, decimal, push_chars, push_decimal, push_str, string_from_chars, trim, trim_chars,
    utf8_str,
};

verus! {

/// Display refresh mode.
///
/// Slower modes produce better image quality. For static images, `GC16` is recommended.
/// For frequent updates (e.g. a clock), `DU` or `A2` reduce flicker.
#[derive(PartialEq, Eq, Structural, Debug, Clone, Copy)]
pub enum Mode {
    /// Full blank/flash. Use this to clear the screen before displaying a new image.
    Init,
    /// Fast update, black and white only. Good for text with frequent refreshes.
    DU,
    /// Full greyscale refresh (16 levels). Best quality, recommended for photos.
    GC16,
    /// Greyscale with ghosting reduction.
    GL16,
    GLR16,
    GLD16,
    /// 4-grey fast update.
    DU4,
    /// 2-bit (very fast). Use for animations or very frequent updates.
    A2,
}

/// The number by which the controller knows a mode.
pub open spec fn mode_number(mode: Mode) -> u32 {
    match mode {
        Mode::Init => 0,
        Mode::DU => 1,
        Mode::GC16 => 2,
        Mode::GL16 => 3,
        Mode::GLR16 => 4,
        Mode::GLD16 => 5,
        Mode::DU4 => 6,
        Mode::A2 => 7,
    }
}

impl Mode {
    /// The number by which the controller knows this mode.
    pub fn number(self) -> (n: u32)
        ensures
            n == mode_number(self),
            self == Mode::Init ==> n == 0,
            self == Mode::DU ==> n == 1,
            self == Mode::GC16 ==> n == 2,
            self == Mode::GL16 ==> n == 3,
            self == Mode::GLR16 ==> n == 4,
            self == Mode::GLD16 ==> n == 5,
            self == Mode::DU4 ==> n == 6,
            self == Mode::A2 ==> n == 7,
    {
        match self {
            Mode::Init => 0,
            Mode::DU => 1,
            Mode::GC16 => 2,
            Mode::GL16 => 3,
            Mode::GLR16 => 4,
            Mode::GLD16 => 5,
            Mode::DU4 => 6,
            Mode::A2 => 7,
        }
    }
}

/// Firmware and hardware information returned by the display controller.
#[derive(Debug, Clone)]
pub struct DisplayInfo {
    pub width: u32,
    pub height: u32,
    pub firmware_version: u32,
    pub vendor: String,
    pub product: String,
    pub revision: String,
}

/// A text field of the INQUIRY reply: its UTF-8 characters without surrounding
/// white space, or nothing when the bytes are not UTF-8.
pub open spec fn inquiry_text(bytes: Seq<u8>) -> Seq<char> {
    if vstd::utf8::valid_utf8(bytes) {
        trim(vstd::utf8::decode_utf8(bytes))
    } else {
        Seq::empty()
    }
}

/// Why the controller's replies do not describe a display.
#[derive(Debug, Clone, Copy, PartialEq, Eq)]
pub enum ReplyError {
    /// The INQUIRY reply is not 36 bytes.
    Inquiry,
    /// The system-info reply is not 112 bytes.
    SystemInfo,
}

/// The text field of `reply` from `start` to `end`.
fn inquiry_field(reply: &[u8], start: usize, end: usize) -> (s: String)
    requires
        start <= end <= reply@.len(),
    ensures
        s@ == inquiry_text(reply@.subrange(start as int, end as int)),
{
    let mut bytes: Vec<u8> = Vec::new();
    let mut i: usize = start;
    while i < end
        invariant
            start <= i <= end <= reply@.len(),
            bytes@ == reply@.subrange(start as int, i as int),
        decreases end - i,
    {
        bytes.push(reply[i]);
        i = i + 1;
        assert(bytes@ =~= reply@.subrange(start as int, i as int));
    }
    match utf8_str(bytes.as_slice()) {
        Some(s) => {
            let chars = chars_of(s);
            let t = trim_chars(&chars);
            string_from_chars(&t)
        },
        None => {
            let empty: Vec<char> = Vec::new();
            string_from_chars(&empty)
        },
    }
}

} // verus!

verus! {

/// A connection to the ThinkBook Plus E-ink lid display, as far as the controller's
/// replies describe it.
pub struct Display {
    system_info: SystemInfo,
    display_info: DisplayInfo,
}

/// The command that reads the INQUIRY reply.
pub open spec fn inquiry_command_view() -> CommandView {
    CommandView { cdb: INQUIRY_CMD@, stage: StageView::Receive(INQUIRY_LEN as u32) }
}

/// The command that reads the system-info reply.
pub open spec fn system_info_command_view() -> CommandView {
    CommandView { cdb: GET_SYS_CMD@, stage: StageView::Receive(SYSTEM_INFO_LEN as u32) }
}

/// The argument record of a display-area command.
pub open spec fn display_area_record(
    address: u32,
    x: u32,
    y: u32,
    width: u32,
    height: u32,
    mode: Mode,
) -> Seq<u8> {
    le_record(seq![address, mode_number(mode), x, y, width, height, 1u32])
}

/// The argument record of a load-image-area command.
pub open spec fn load_area_record(address: u32, x: u32, y: u32, width: u32, height: u32) -> Seq<
    u8,
> {
    le_record(seq![address, x, y, width, height])
}

/// The number of pieces of at most `MAX_TRANSFER` bytes that `n` bytes make.
pub open spec fn chunk_count(n: nat) -> nat {
    ((n + MAX_TRANSFER - 1) / MAX_TRANSFER as int) as nat
}

/// Piece `i` of `bytes` cut into pieces of `MAX_TRANSFER` bytes (the last may be shorter).
pub open spec fn chunk(bytes: Seq<u8>, i: int) -> Seq<u8> {
    let start = i * MAX_TRANSFER;
    let end = if start + MAX_TRANSFER <= bytes.len() {
        start + MAX_TRANSFER
    } else {
        bytes.len() as int
    };
    bytes.subrange(start, end)
}

/// The power command with its switch set to `on`.
pub open spec fn power_cdb(on: bool) -> Seq<u8> {
    PMIC_CONTROL@.update(10, 1u8).update(11, if on { 1u8 } else { 0u8 })
}

impl Display {
    /// The command that asks the controller for its vendor, product and revision.
    pub fn inquiry_command() -> (c: ScsiCommand)
        ensures
            c@ == inquiry_command_view(),
    {
        ScsiCommand { cdb: INQUIRY_CMD, stage: DataStage::Receive(INQUIRY_LEN as u32) }
    }

    /// The command that asks the controller for its system information.
    pub fn system_info_command() -> (c: ScsiCommand)
        ensures
            c@ == system_info_command_view(),
    {
        ScsiCommand { cdb: GET_SYS_CMD, stage: DataStage::Receive(SYSTEM_INFO_LEN as u32) }
    }

    /// The display that the replies to the INQUIRY and system-info commands describe.
    pub fn from_replies(inquiry: &[u8], system: &[u8]) -> (r: Result<Display, ReplyError>)
        ensures
            inquiry@.len() != INQUIRY_LEN ==> r == Err::<Display, ReplyError>(ReplyError::Inquiry),
            inquiry@.len() == INQUIRY_LEN && system@.len() != SYSTEM_INFO_LEN ==> r == Err::<
                Display,
                ReplyError,
            >(ReplyError::SystemInfo),
            inquiry@.len() == INQUIRY_LEN && system@.len() == SYSTEM_INFO_LEN ==> r is Ok,
            r matches Ok(d) ==> {
                &&& d.system_info().decodes_from(system@)
                &&& d.info_view().width == d.system_info().width
                &&& d.info_view().height == d.system_info().height
                &&& d.info_view().firmware_version == d.system_info().version
                &&& d.info_view().vendor@ == inquiry_text(inquiry@.subrange(8, 16))
                &&& d.info_view().product@ == inquiry_text(inquiry@.subrange(16, 32))
                &&& d.info_view().revision@ == inquiry_text(inquiry@.subrange(32, 36))
            },
    {
        if inquiry.len() != INQUIRY_LEN {
            return Err(ReplyError::Inquiry);
        }
        let vendor = inquiry_field(inquiry, 8, 16);
        let product = inquiry_field(inquiry, 16, 32);
        let revision = inquiry_field(inquiry, 32, 36);
        let system_info = match SystemInfo::decode(system) {
            Some(info) => info,
            None => return Err(ReplyError::SystemInfo),
        };
        let display_info = DisplayInfo {
            width: system_info.width,
            height: system_info.height,
            firmware_version: system_info.version,
            vendor,
            product,
            revision,
        };
        Ok(Display { system_info, display_info })
    }

    /// The description of the display agrees with what the controller reported.
    #[verifier::type_invariant]
    spec fn consistent(self) -> bool {
        &&& self.display_info.width == self.system_info.width
        &&& self.display_info.height == self.system_info.height
        &&& self.display_info.firmware_version == self.system_info.version
    }

    /// What the controller reported of itself.
    pub closed spec fn system_info(&self) -> SystemInfo {
        self.system_info
    }

    /// Hardware and firmware information as the controller reported it.
    pub closed spec fn info_view(&self) -> DisplayInfo {
        self.display_info
    }

    /// Returns display hardware and firmware information.
    pub fn info(&self) -> (i: &DisplayInfo)
        ensures
            *i == self.info_view(),
            i.width == self.system_info().width,
            i.height == self.system_info().height,
            i.firmware_version == self.system_info().version,
    {
        proof {
            use_type_invariant(self);
        }
        &self.display_info
    }

    /// The command that refreshes the region at (`x`, `y`) of `width` by `height` pixels
    /// from the image buffer, in `mode`, and waits until the panel is ready.
    pub fn display_region(&self, x: u32, y: u32, width: u32, height: u32, mode: Mode) -> (c:
        ScsiCommand)
        ensures
            c@ == (CommandView {
                cdb: DPY_AREA_CMD@,
                stage: StageView::Send(
                    display_area_record(
                        self.system_info().image_buffer_base,
                        x,
                        y,
                        width,
                        height,
                        mode,
                    ),
                ),
            }),
    {
        let record: [u32; 7] = [
            self.system_info.image_buffer_base,
            mode.number(),
            x,
            y,
            width,
            height,
            1,
        ];
        let bytes = encode_le_record(&record);
        assert(record@ =~= seq![
            self.system_info().image_buffer_base,
            mode_number(mode),
            x,
            y,
            width,
            height,
            1u32,
        ]);
        ScsiCommand { cdb: DPY_AREA_CMD, stage: DataStage::Send(bytes) }
    }

    /// The command that clears the display with a full blank flash.
    pub fn clear(&self) -> (c: ScsiCommand)
        ensures
            c@ == (CommandView {
                cdb: DPY_AREA_CMD@,
                stage: StageView::Send(
                    display_area_record(
                        self.system_info().image_buffer_base,
                        0,
                        0,
                        self.system_info().width,
                        self.system_info().height,
                        Mode::Init,
                    ),
                ),
            }),
    {
        let w = self.system_info.width;
        let h = self.system_info.height;
        self.display_region(0, 0, w, h, Mode::Init)
    }

    /// The command that powers the display on or off.
    pub fn set_power(&self, on: bool) -> (c: ScsiCommand)
        ensures
            c@ == (CommandView { cdb: power_cdb(on), stage: StageView::NoData }),
    {
        let mut cmd = PMIC_CONTROL;
        cmd[10] = 1;
        cmd[11] = if on { 1 } else { 0 };
        ScsiCommand { cdb: cmd, stage: DataStage::NoData }
    }
}

} // verus!

verus! {

/// Command `k` of those that load `pixels` into the region at (`x`, `y`) of `width` by
/// `height` pixels: the record, then piece `k` of the pixels.
pub open spec fn load_command_view(
    address: u32,
    pixels: Seq<u8>,
    x: u32,
    y: u32,
    width: u32,
    height: u32,
    k: int,
) -> CommandView {
    CommandView {
        cdb: LD_IMAGE_AREA_CMD@,
        stage: StageView::Send(load_area_record(address, x, y, width, height) + chunk(pixels, k)),
    }
}

/// Why an image cannot be shown.
#[derive(Debug, Clone, Copy, PartialEq, Eq)]
pub enum ShowError {
    /// The pixel buffer holds fewer than width times height bytes.
    PrepareImageBuffer,
}

/// Appends `src[start..end]` to `out`.
fn extend_from_range(out: &mut Vec<u8>, src: &[u8], start: usize, end: usize)
    requires
        start <= end <= src@.len(),
    ensures
        final(out)@ == old(out)@ + src@.subrange(start as int, end as int),
{
    let mut i: usize = start;
    while i < end
        invariant
            start <= i <= end <= src@.len(),
            out@ == old(out)@ + src@.subrange(start as int, i as int),
        decreases end - i,
    {
        out.push(src[i]);
        i = i + 1;
        assert(out@ =~= old(out)@ + src@.subrange(start as int, i as int));
    }
}

impl Display {
    /// The commands that load `pixels` (8-bit grey, row by row) into the controller's
    /// image buffer for the region at (`x`, `y`) of `width` by `height` pixels: one
    /// command per piece of at most `MAX_TRANSFER` bytes, each opened by the same record.
    pub fn load_region(&self, pixels: &[u8], x: u32, y: u32, width: u32, height: u32) -> (cmds:
        Vec<ScsiCommand>)
        ensures
            cmds@.len() == chunk_count(pixels@.len()),
            forall|k: int|
                0 <= k < cmds@.len() ==> #[trigger] cmds@[k]@ == load_command_view(
                    self.system_info().image_buffer_base,
                    pixels@,
                    x,
                    y,
                    width,
                    height,
                    k,
                ),
    {
        let record: [u32; 5] = [self.system_info.image_buffer_base, x, y, width, height];
        let ghost address = self.system_info().image_buffer_base;
        assert(record@ =~= seq![address, x, y, width, height]);
        let n = pixels.len();
        let mut cmds: Vec<ScsiCommand> = Vec::new();
        let mut i: usize = 0;
        let mut start: usize = 0;
        while start < n
            invariant
                n == pixels@.len(),
                start as int == if i as int * MAX_TRANSFER <= n { i as int * MAX_TRANSFER } else { n as int },
                start <= n,
                i == 0 || (i as int - 1) * MAX_TRANSFER < n,
                cmds@.len() == i,
                record@ == seq![address, x, y, width, height],
                address == self.system_info().image_buffer_base,
                forall|k: int|
                    0 <= k < i ==> #[trigger] cmds@[k]@ == load_command_view(
                        address,
                        pixels@,
                        x,
                        y,
                        width,
                        height,
                        k,
                    ),
            decreases n - start,
        {
            let end = if n - start > MAX_TRANSFER {
                start + MAX_TRANSFER
            } else {
                n
            };
            let mut payload = encode_le_record(&record);
            extend_from_range(&mut payload, pixels, start, end);
            let cmd = ScsiCommand { cdb: LD_IMAGE_AREA_CMD, stage: DataStage::Send(payload) };
            assert(cmd@ == load_command_view(address, pixels@, x, y, width, height, i as int));
            cmds.push(cmd);
            i = i + 1;
            start = end;
        }
        assert(i == chunk_count(n as nat)) by (nonlinear_arith)
            requires
                i as int * MAX_TRANSFER >= n,
                i == 0 || (i as int - 1) * MAX_TRANSFER < n,
                MAX_TRANSFER == 61440,
                i == 0 ==> n == 0,
        ;
        cmds
    }
}

} // verus!

verus! {

/// The first `k` pieces of `bytes`, joined in order.
pub open spec fn joined_chunks(bytes: Seq<u8>, k: nat) -> Seq<u8>
    decreases k,
{
    if k == 0 {
        Seq::empty()
    } else {
        joined_chunks(bytes, (k - 1) as nat) + chunk(bytes, k - 1)
    }
}

/// Loading an image loses, repeats and reorders nothing: the pieces that
/// `load_region` sends, joined in order, are exactly the pixels, and each piece holds
/// between one and `MAX_TRANSFER` bytes.
pub proof fn lemma_chunks_cover(bytes: Seq<u8>)
    ensures
        joined_chunks(bytes, chunk_count(bytes.len())) == bytes,
        forall|k: int|
            0 <= k < chunk_count(bytes.len()) ==> 0 < (#[trigger] chunk(bytes, k)).len()
                <= MAX_TRANSFER,
{
    let n = chunk_count(bytes.len());
    assert(n * MAX_TRANSFER >= bytes.len() && (n == 0 || (n - 1) * MAX_TRANSFER < bytes.len()))
        by (nonlinear_arith)
        requires
            n == chunk_count(bytes.len()),
            MAX_TRANSFER == 61440,
    ;
    lemma_joined_prefix(bytes, n);
    assert(bytes.take(bytes.len() as int) =~= bytes);
    assert forall|k: int| 0 <= k < n implies 0 < (#[trigger] chunk(bytes, k)).len()
        <= MAX_TRANSFER by {
        assert(k * MAX_TRANSFER <= (n - 1) * MAX_TRANSFER) by (nonlinear_arith)
            requires
                0 <= k < n,
        ;
    }
}

/// The first `k` pieces, joined, are the first `min(k * MAX_TRANSFER, len)` bytes.
proof fn lemma_joined_prefix(bytes: Seq<u8>, k: nat)
    requires
        k == 0 || (k - 1) * MAX_TRANSFER < bytes.len(),
    ensures
        joined_chunks(bytes, k) == bytes.take(
            if k * MAX_TRANSFER <= bytes.len() {
                k * MAX_TRANSFER
            } else {
                bytes.len() as int
            },
        ),
    decreases k,
{
    if k > 0 {
        if k > 1 {
            assert((k - 2) * MAX_TRANSFER < (k - 1) * MAX_TRANSFER);
        }
        lemma_joined_prefix(bytes, (k - 1) as nat);
        let prev = if (k - 1) * MAX_TRANSFER <= bytes.len() {
            (k - 1) * MAX_TRANSFER
        } else {
            bytes.len() as int
        };
        let start = (k - 1) * MAX_TRANSFER;
        assert(start + MAX_TRANSFER == k * MAX_TRANSFER);
        assert(joined_chunks(bytes, k) =~= bytes.take(
            if k * MAX_TRANSFER <= bytes.len() {
                k * MAX_TRANSFER
            } else {
                bytes.len() as int
            },
        ));
    }
}

/// The views of `cmds`.
pub open spec fn views(cmds: Seq<ScsiCommand>) -> Seq<CommandView> {
    cmds.map_values(|c: ScsiCommand| c@)
}

/// `cmds` load `image` (row by row) as the `lw` by `lh` region at the origin, piece by
/// piece, then refresh the whole `w` by `h` panel in `mode`.
pub open spec fn loads_then_refreshes(
    address: u32,
    image: Seq<u8>,
    lw: u32,
    lh: u32,
    w: u32,
    h: u32,
    mode: Mode,
    cmds: Seq<CommandView>,
) -> bool {
    &&& cmds.len() == chunk_count(image.len()) + 1
    &&& forall|k: int|
        0 <= k < cmds.len() - 1 ==> #[trigger] cmds[k] == load_command_view(
            address,
            image,
            0,
            0,
            lw,
            lh,
            k,
        )
    &&& cmds.last() == (CommandView {
        cdb: DPY_AREA_CMD@,
        stage: StageView::Send(display_area_record(address, 0, 0, w, h, mode)),
    })
}

/// `cmds` show `image` (the panel's pixels, row by row) in `mode`: they load it at the
/// origin piece by piece, then refresh the whole `width` by `height` panel.
pub open spec fn shows_image(
    address: u32,
    width: u32,
    height: u32,
    image: Seq<u8>,
    mode: Mode,
    cmds: Seq<CommandView>,
) -> bool {
    loads_then_refreshes(address, image, width, height, width, height, mode, cmds)
}

impl Display {
    /// What `show` gives for a grey buffer `pixels`: an error exactly when it holds fewer
    /// than width times height bytes, else the commands that show its first width times
    /// height bytes.
    pub open spec fn show_outcome(
        self,
        pixels: Seq<u8>,
        mode: Mode,
        r: Result<Vec<ScsiCommand>, ShowError>,
    ) -> bool {
        let w = self.system_info().width;
        let h = self.system_info().height;
        &&& r is Err <==> pixels.len() < w * h
        &&& r matches Err(e) ==> e == ShowError::PrepareImageBuffer
        &&& r matches Ok(cmds) ==> shows_image(
            self.system_info().image_buffer_base,
            w,
            h,
            pixels.take(w * h),
            mode,
            views(cmds@),
        )
    }

    /// The commands that load `image` as the `lw` by `lh` region at the origin, then
    /// refresh the whole panel in `mode`.
    pub fn load_and_refresh(&self, image: &[u8], lw: u32, lh: u32, mode: Mode) -> (cmds: Vec<
        ScsiCommand,
    >)
        ensures
            loads_then_refreshes(
                self.system_info().image_buffer_base,
                image@,
                lw,
                lh,
                self.system_info().width,
                self.system_info().height,
                mode,
                views(cmds@),
            ),
    {
        let w = self.system_info.width;
        let h = self.system_info.height;
        let mut cmds = self.load_region(image, 0, 0, lw, lh);
        let ghost loads = cmds@;
        let last = self.display_region(0, 0, w, h, mode);
        cmds.push(last);
        assert(views(cmds@).len() == cmds@.len());
        assert forall|k: int| 0 <= k < views(cmds@).len() - 1 implies #[trigger] views(cmds@)[k]
            == load_command_view(self.system_info().image_buffer_base, image@, 0, 0, lw, lh, k) by {
            assert(cmds@[k] == loads[k]);
        }
        cmds
    }

    /// The commands that load `image` at the origin and refresh the whole panel.
    fn image_commands(&self, image: &[u8], mode: Mode) -> (cmds: Vec<ScsiCommand>)
        ensures
            shows_image(
                self.system_info().image_buffer_base,
                self.system_info().width,
                self.system_info().height,
                image@,
                mode,
                views(cmds@),
            ),
    {
        self.load_and_refresh(image, self.system_info.width, self.system_info.height, mode)
    }

    /// The first width times height bytes of `pixels`, or `None` when there are fewer.
    fn panel_prefix(&self, pixels: &[u8]) -> (r: Option<Vec<u8>>)
        ensures
            r is None <==> pixels@.len() < self.system_info().width * self.system_info().height,
            r matches Some(p) ==> p@ == pixels@.take(
                self.system_info().width * self.system_info().height,
            ),
    {
        let w = self.system_info.width;
        let h = self.system_info.height;
        let plen = pixels.len();
        let needed = (w as usize).checked_mul(h as usize);
        let n = match needed {
            Some(n) => n,
            None => {
                assert(w * h > usize::MAX);
                return None;
            },
        };
        if n > pixels.len() {
            return None;
        }
        let mut prepared: Vec<u8> = Vec::new();
        extend_from_range(&mut prepared, pixels, 0, n);
        assert(prepared@ =~= pixels@.take(w * h));
        Some(prepared)
    }

    /// The commands that display an 8-bit grey image of exactly the panel's size
    /// (`pixels`, row by row, already resized and cropped to fit) in `mode`: the pixels
    /// are loaded at the origin, then the whole panel is refreshed. Fails when
    /// `pixels` holds fewer than width times height bytes; bytes beyond those are not sent.
    pub fn show(&self, pixels: &[u8], mode: Mode) -> (r: Result<Vec<ScsiCommand>, ShowError>)
        ensures
            self.show_outcome(pixels@, mode, r),
    {
        match self.panel_prefix(pixels) {
            None => Err(ShowError::PrepareImageBuffer),
            Some(prepared) => Ok(self.image_commands(prepared.as_slice(), mode)),
        }
    }
}

impl Display {
    /// The commands that display a picture in `mode`: it is converted to 8-bit greyscale
    /// and resized and cropped to fit the panel, then shown as `show` shows it. What
    /// holds whatever grey bytes the resizing gave (at most the panel's width times
    /// height): the result is what `show` gives for them.
    pub fn show_picture(&self, img: &Picture, mode: Mode) -> (r: Result<
        Vec<ScsiCommand>,
        ShowError,
    >)
        requires
            img@.width > 0,
            img@.height > 0,
        ensures
            exists|grey: Seq<u8>|
                grey.len() <= self.system_info().width * self.system_info().height
                    && #[trigger] self.show_outcome(grey, mode, r),
    {
        let grey = fill_to_grey(img, self.system_info.width, self.system_info.height);
        let r = self.show(grey.as_slice(), mode);
        assert(self.show_outcome(grey@, mode, r));
        r
    }

    /// What `show_backside` gives for the grey bytes `grey`: an error exactly when they
    /// are fewer than width times height, else the commands that show their first width
    /// times height bytes, turned by 180 degrees when `flip` is set, in the full
    /// greyscale mode.
    pub open spec fn backside_outcome(
        self,
        grey: Seq<u8>,
        flip: bool,
        r: Result<Vec<ScsiCommand>, ShowError>,
    ) -> bool {
        let w = self.system_info().width;
        let h = self.system_info().height;
        let image = if flip {
            grey.take(w * h).reverse()
        } else {
            grey.take(w * h)
        };
        &&& r is Err <==> grey.len() < w * h
        &&& r matches Err(e) ==> e == ShowError::PrepareImageBuffer
        &&& r matches Ok(cmds) ==> shows_image(
            self.system_info().image_buffer_base,
            w,
            h,
            image,
            Mode::GC16,
            views(cmds@),
        )
    }

    /// The commands that set a picture on the back of the lid: converted to grey,
    /// resized and cropped to fit, turned by 180 degrees when `flip` is set, and shown
    /// in the best-quality mode. What holds whatever grey bytes the resizing gave (at most
    /// the panel's width times height): the result is `backside_outcome` for them.
    pub fn show_backside(&self, img: &Picture, flip: bool) -> (r: Result<
        Vec<ScsiCommand>,
        ShowError,
    >)
        requires
            img@.width > 0,
            img@.height > 0,
        ensures
            exists|grey: Seq<u8>|
                grey.len() <= self.system_info().width * self.system_info().height
                    && #[trigger] self.backside_outcome(grey, flip, r),
    {
        let grey = fill_to_grey(img, self.system_info.width, self.system_info.height);
        let r = self.show_turned(grey.as_slice(), flip);
        assert(self.backside_outcome(grey@, flip, r));
        r
    }

    /// The commands that show the grey bytes `grey` (row by row) in the best-quality
    /// mode, turned by 180 degrees when `flip` is set; an error when they are fewer than
    /// width times height, and bytes beyond those are not sent.
    pub fn show_turned(&self, grey: &[u8], flip: bool) -> (r: Result<Vec<ScsiCommand>, ShowError>)
        ensures
            self.backside_outcome(grey@, flip, r),
    {
        let w = self.system_info.width;
        let h = self.system_info.height;
        match self.panel_prefix(grey) {
            None => Err(ShowError::PrepareImageBuffer),
            Some(prepared) => {
                let image = if flip {
                    rotate180(&prepared, w, h)
                } else {
                    prepared
                };
                Ok(self.image_commands(image.as_slice(), Mode::GC16))
            },
        }
    }
}

} // verus!

verus! {

/// The text that describes a display: vendor, product, revision, resolution and
/// firmware version, one per line.
pub open spec fn info_text(i: DisplayInfo) -> Seq<char> {
    "Vendor:    "@ + trim(i.vendor@) + "\nProduct:   "@ + trim(i.product@) + "\nRevision:  "@ + trim(
        i.revision@,
    ) + "\nResolution: "@ + decimal(i.width as nat) + "x"@ + decimal(i.height as nat)
        + "\nFirmware:  v"@ + decimal(i.firmware_version as nat)
}

/// Appends `s` without its surrounding white space to `out`.
fn push_trimmed(out: &mut Vec<char>, s: &String)
    ensures
        final(out)@ == old(out)@ + trim(s@),
{
    let cs = chars_of(s.as_str());
    let t = trim_chars(&cs);
    push_chars(out, &t);
}

impl DisplayInfo {
    /// The text that describes the display, as `eink-info` prints it.
    pub fn to_text(&self) -> (s: String)
        ensures
            s@ == info_text(*self),
    {
        let mut out: Vec<char> = Vec::new();
        push_str(&mut out, "Vendor:    ");
        push_trimmed(&mut out, &self.vendor);
        push_str(&mut out, "\nProduct:   ");
        push_trimmed(&mut out, &self.product);
        push_str(&mut out, "\nRevision:  ");
        push_trimmed(&mut out, &self.revision);
        push_str(&mut out, "\nResolution: ");
        push_decimal(&mut out, self.width as u64);
        push_str(&mut out, "x");
        push_decimal(&mut out, self.height as u64);
        push_str(&mut out, "\nFirmware:  v");
        push_decimal(&mut out, self.firmware_version as u64);
        string_from_chars(&out)
    }
}

} // verus!

verus! {

/// The controller reads back what a display-area command says: the record is 28 bytes,
/// and its little-endian fields are the buffer address, the mode's number, the region
/// and the wait flag, in that order.
pub proof fn lemma_display_record_fields(
    address: u32,
    x: u32,
    y: u32,
    width: u32,
    height: u32,
    mode: Mode,
)
    ensures
        ({
            let r = display_area_record(address, x, y, width, height, mode);
            &&& r.len() == 28
            &&& crate::protocol::le_u32_at(r, 0) == address
            &&& crate::protocol::le_u32_at(r, 4) == mode_number(mode)
            &&& crate::protocol::le_u32_at(r, 8) == x
            &&& crate::protocol::le_u32_at(r, 12) == y
            &&& crate::protocol::le_u32_at(r, 16) == width
            &&& crate::protocol::le_u32_at(r, 20) == height
            &&& crate::protocol::le_u32_at(r, 24) == 1
        }),
{
    let v = seq![address, mode_number(mode), x, y, width, height, 1u32];
    crate::protocol::lemma_le_record_len(v);
    crate::protocol::lemma_le_record_field(v, 0);
    crate::protocol::lemma_le_record_field(v, 1);
    crate::protocol::lemma_le_record_field(v, 2);
    crate::protocol::lemma_le_record_field(v, 3);
    crate::protocol::lemma_le_record_field(v, 4);
    crate::protocol::lemma_le_record_field(v, 5);
    crate::protocol::lemma_le_record_field(v, 6);
}

/// The controller reads back what a load-image-area command says: the record is 20
/// bytes, its little-endian fields are the buffer address and the region, and the
/// pixels follow right after it.
pub proof fn lemma_load_record_fields(
    address: u32,
    pixels: Seq<u8>,
    x: u32,
    y: u32,
    width: u32,
    height: u32,
    k: int,
)
    ensures
        ({
            let r = load_area_record(address, x, y, width, height);
            let c = load_command_view(address, pixels, x, y, width, height, k);
            &&& r.len() == 20
            &&& crate::protocol::le_u32_at(r, 0) == address
            &&& crate::protocol::le_u32_at(r, 4) == x
            &&& crate::protocol::le_u32_at(r, 8) == y
            &&& crate::protocol::le_u32_at(r, 12) == width
            &&& crate::protocol::le_u32_at(r, 16) == height
            &&& c.stage matches StageView::Send(bytes) && bytes.skip(20) == chunk(pixels, k)
                && bytes.take(20) == r
        }),
{
    let v = seq![address, x, y, width, height];
    crate::protocol::lemma_le_record_len(v);
    crate::protocol::lemma_le_record_field(v, 0);
    crate::protocol::lemma_le_record_field(v, 1);
    crate::protocol::lemma_le_record_field(v, 2);
    crate::protocol::lemma_le_record_field(v, 3);
    crate::protocol::lemma_le_record_field(v, 4);
    let r = load_area_record(address, x, y, width, height);
    assert((r + chunk(pixels, k)).skip(20) =~= chunk(pixels, k));
    assert((r + chunk(pixels, k)).take(20) =~= r);
}

/// The waveform index that a display-area command carries for each mode, in the
/// controller's order: Init 0, DU 1, GC16 2, GL16 3, GLR16 4, GLD16 5, DU4 6, A2 7.
pub proof fn lemma_mode_wire_numbers(address: u32, x: u32, y: u32, width: u32, height: u32)
    ensures
        crate::protocol::le_u32_at(display_area_record(address, x, y, width, height, Mode::Init), 4) == 0,
        crate::protocol::le_u32_at(display_area_record(address, x, y, width, height, Mode::DU), 4) == 1,
        crate::protocol::le_u32_at(display_area_record(address, x, y, width, height, Mode::GC16), 4) == 2,
        crate::protocol::le_u32_at(display_area_record(address, x, y, width, height, Mode::GL16), 4) == 3,
        crate::protocol::le_u32_at(display_area_record(address, x, y, width, height, Mode::GLR16), 4) == 4,
        crate::protocol::le_u32_at(display_area_record(address, x, y, width, height, Mode::GLD16), 4) == 5,
        crate::protocol::le_u32_at(display_area_record(address, x, y, width, height, Mode::DU4), 4) == 6,
        crate::protocol::le_u32_at(display_area_record(address, x, y, width, height, Mode::A2), 4) == 7,
{
    lemma_display_record_fields(address, x, y, width, height, Mode::Init);
    lemma_display_record_fields(address, x, y, width, height, Mode::DU);
    lemma_display_record_fields(address, x, y, width, height, Mode::GC16);
    lemma_display_record_fields(address, x, y, width, height, Mode::GL16);
    lemma_display_record_fields(address, x, y, width, height, Mode::GLR16);
    lemma_display_record_fields(address, x, y, width, height, Mode::GLD16);
    lemma_display_record_fields(address, x, y, width, height, Mode::DU4);
    lemma_display_record_fields(address, x, y, width, height, Mode::A2);
}

/// Different modes reach the controller as different numbers, each below 8.
pub proof fn lemma_mode_numbers_distinct(a: Mode, b: Mode)
    ensures
        mode_number(a) < 8,
        mode_number(a) == mode_number(b) <==> a == b,
{
}

} // verus!

verus! {

/// The image bytes that load commands carry: what follows the 20-byte record in each,
/// joined in order.
pub open spec fn loaded_pixels(cmds: Seq<CommandView>) -> Seq<u8>
    decreases cmds.len(),
{
    if cmds.len() == 0 {
        Seq::empty()
    } else {
        loaded_pixels(cmds.drop_last()) + match cmds.last().stage {
            StageView::Send(bytes) => bytes.skip(20),
            _ => Seq::empty(),
        }
    }
}

proof fn lemma_loaded_prefix(
    address: u32,
    pixels: Seq<u8>,
    x: u32,
    y: u32,
    width: u32,
    height: u32,
    cmds: Seq<CommandView>,
    k: nat,
)
    requires
        k <= cmds.len(),
        forall|j: int|
            0 <= j < cmds.len() ==> #[trigger] cmds[j] == load_command_view(
                address,
                pixels,
                x,
                y,
                width,
                height,
                j,
            ),
    ensures
        loaded_pixels(cmds.take(k as int)) == joined_chunks(pixels, k),
    decreases k,
{
    if k > 0 {
        lemma_loaded_prefix(address, pixels, x, y, width, height, cmds, (k - 1) as nat);
        assert(cmds.take(k as int).drop_last() =~= cmds.take(k - 1));
        lemma_load_record_fields(address, pixels, x, y, width, height, k - 1);
    }
}

/// Showing an image sends all of it and nothing else: commands that show `image`
/// carry, after their records and in order, exactly its bytes, each piece between one
/// and `MAX_TRANSFER` bytes, and the refresh of the whole panel comes last.
pub proof fn lemma_show_sends_image(
    address: u32,
    width: u32,
    height: u32,
    image: Seq<u8>,
    mode: Mode,
    cmds: Seq<CommandView>,
)
    requires
        shows_image(address, width, height, image, mode, cmds),
    ensures
        loaded_pixels(cmds.drop_last()) == image,
        forall|k: int|
            0 <= k < cmds.len() - 1 ==> 0 < (#[trigger] chunk(image, k)).len() <= MAX_TRANSFER,
        cmds.last().cdb == DPY_AREA_CMD@,
{
    let loads = cmds.drop_last();
    assert forall|j: int| 0 <= j < loads.len() implies #[trigger] loads[j] == load_command_view(
        address,
        image,
        0,
        0,
        width,
        height,
        j,
    ) by {
        assert(loads[j] == cmds[j]);
    }
    lemma_loaded_prefix(address, image, 0, 0, width, height, loads, loads.len());
    assert(loads.take(loads.len() as int) =~= loads);
    lemma_chunks_cover(image);
}

} // verus!

use thinkbook_eink::display::{ReplyError, ShowError};
use thinkbook_eink::protocol::{
    check_status, DataStage, ScsiCommand, StatusError, SystemInfo, DPY_AREA_CMD, GET_SYS_CMD,
    INQUIRY_CMD, LD_IMAGE_AREA_CMD, MAX_TRANSFER, PMIC_CONTROL,
};
use thinkbook_eink::picture::{Picture, PixelLayout};
use thinkbook_eink::server::{dashboard_commands, Config as ServerConfig, Theme};
use thinkbook_eink::{Display, Mode};

fn inquiry_reply(vendor: &[u8; 8], product: &[u8; 16], revision: &[u8; 4]) -> Vec<u8> {
    let mut v = vec![0u8; 8];
    v.extend_from_slice(vendor);
    v.extend_from_slice(product);
    v.extend_from_slice(revision);
    v
}

fn system_reply(width: u32, height: u32, version: u32, base: u32) -> Vec<u8> {
    let mut fields = [0u32; 28];
    fields[0] = 12;
    fields[1] = 44;
    fields[3] = version;
    fields[4] = width;
    fields[5] = height;
    fields[7] = base;
    fields.iter().flat_map(|f| f.to_be_bytes()).collect()
}

fn panel(width: u32, height: u32) -> Display {
    Display::from_replies(
        &inquiry_reply(b"Generic ", b"Storage RamDisc ", b"1.00"),
        &system_reply(width, height, 65538, 0x0012_3456),
    )
    .unwrap()
}

fn payload(cmd: &ScsiCommand) -> &Vec<u8> {
    match &cmd.stage {
        DataStage::Send(bytes) => bytes,
        _ => panic!("expected a data-out stage"),
    }
}

fn le(values: &[u32]) -> Vec<u8> {
    values.iter().flat_map(|v| v.to_le_bytes()).collect()
}

#[test]
fn info_text_matches_readme() {
    let d = panel(1920, 1080);
    assert_eq!(
        d.info().to_text(),
        "Vendor:    Generic\nProduct:   Storage RamDisc\nRevision:  1.00\nResolution: 1920x1080\nFirmware:  v65538"
    );
    assert_eq!(d.info().width, 1920);
    assert_eq!(d.info().height, 1080);
    assert_eq!(d.info().vendor, "Generic");
    assert_eq!(d.info().product, "Storage RamDisc");
}

#[test]
fn inquiry_text_is_trimmed_and_invalid_utf8_is_empty() {
    let d = Display::from_replies(
        &inquiry_reply(b" \tITE\n  ", &[0xff; 16], b"0.1 "),
        &system_reply(8, 4, 1, 0),
    )
    .unwrap();
    assert_eq!(d.info().vendor, "ITE");
    assert_eq!(d.info().product, "");
    assert_eq!(d.info().revision, "0.1");
}

#[test]
fn reply_errors() {
    let good_inq = inquiry_reply(b"Generic ", b"Storage RamDisc ", b"1.00");
    let good_sys = system_reply(1920, 1080, 1, 0);
    assert_eq!(Display::from_replies(&good_inq[..35], &good_sys).err(), Some(ReplyError::Inquiry));
    assert_eq!(
        Display::from_replies(&good_inq, &good_sys[..111]).err(),
        Some(ReplyError::SystemInfo)
    );
    let mut long = good_sys.clone();
    long.push(0);
    assert_eq!(Display::from_replies(&good_inq, &long).err(), Some(ReplyError::SystemInfo));
}

#[test]
fn system_info_decodes_big_endian_fields() {
    let reply = system_reply(1920, 1080, 65538, 0x0102_0304);
    let info = SystemInfo::decode(&reply).unwrap();
    assert_eq!(info.standard_cmd_no, 12);
    assert_eq!(info.extended_cmd_no, 44);
    assert_eq!(info.width, 1920);
    assert_eq!(info.height, 1080);
    assert_eq!(info.version, 65538);
    assert_eq!(info.image_buffer_base, 0x0102_0304);
    assert_eq!(&reply[28..32], &[1, 2, 3, 4]);
    assert!(SystemInfo::decode(&reply[..100]).is_none());
}

#[test]
fn query_commands() {
    let c = Display::inquiry_command();
    assert_eq!(c.cdb, INQUIRY_CMD);
    assert!(matches!(c.stage, DataStage::Receive(36)));
    let c = Display::system_info_command();
    assert_eq!(c.cdb, GET_SYS_CMD);
    assert!(matches!(c.stage, DataStage::Receive(112)));
}

#[test]
fn clear_is_a_full_panel_init_refresh() {
    let d = panel(1920, 1080);
    let c = d.clear();
    assert_eq!(c.cdb, DPY_AREA_CMD);
    assert_eq!(payload(&c), &le(&[0x0012_3456, 0, 0, 0, 1920, 1080, 1]));
}

#[test]
fn display_region_record() {
    let d = panel(1920, 1080);
    let c = d.display_region(10, 20, 300, 400, Mode::DU);
    assert_eq!(c.cdb, DPY_AREA_CMD);
    assert_eq!(payload(&c), &le(&[0x0012_3456, 1, 10, 20, 300, 400, 1]));
    let c = d.display_region(0, 0, 1, 1, Mode::A2);
    assert_eq!(payload(&c)[4], 7);
    assert_eq!(Mode::GC16.number(), 2);
    assert_eq!(Mode::Init.number(), 0);
}

#[test]
fn power_commands() {
    let d = panel(1920, 1080);
    let on = d.set_power(true);
    let off = d.set_power(false);
    let mut expect = PMIC_CONTROL;
    expect[10] = 1;
    expect[11] = 1;
    assert_eq!(on.cdb, expect);
    expect[11] = 0;
    assert_eq!(off.cdb, expect);
    assert!(matches!(on.stage, DataStage::NoData));
    assert!(matches!(off.stage, DataStage::NoData));
}

#[test]
fn load_region_cuts_into_pieces_that_join_back() {
    let d = panel(1920, 1080);
    let pixels: Vec<u8> = (0..(2 * MAX_TRANSFER + 5)).map(|i| (i % 251) as u8).collect();
    let cmds = d.load_region(&pixels, 3, 4, 5, 6);
    assert_eq!(cmds.len(), 3);
    let header = le(&[0x0012_3456, 3, 4, 5, 6]);
    let mut joined = Vec::new();
    for c in &cmds {
        assert_eq!(c.cdb, LD_IMAGE_AREA_CMD);
        let p = payload(c);
        assert_eq!(&p[..20], &header[..]);
        assert!(p.len() - 20 <= MAX_TRANSFER);
        joined.extend_from_slice(&p[20..]);
    }
    assert_eq!(payload(&cmds[2]).len(), 25);
    assert_eq!(joined, pixels);
}

#[test]
fn load_region_of_nothing_sends_nothing() {
    let d = panel(1920, 1080);
    assert!(d.load_region(&[], 0, 0, 0, 0).is_empty());
    let exact = vec![7u8; MAX_TRANSFER];
    assert_eq!(d.load_region(&exact, 0, 0, 0, 0).len(), 1);
}

#[test]
fn show_loads_then_refreshes() {
    let d = panel(4, 3);
    let pixels: Vec<u8> = (0..12).collect();
    let cmds = d.show(&pixels, Mode::GC16).unwrap();
    assert_eq!(cmds.len(), 2);
    assert_eq!(payload(&cmds[0])[20..], pixels[..]);
    assert_eq!(cmds[1].cdb, DPY_AREA_CMD);
    assert_eq!(payload(&cmds[1]), &le(&[0x0012_3456, 2, 0, 0, 4, 3, 1]));
}

#[test]
fn show_rejects_short_buffers_and_sends_only_the_panel() {
    let d = panel(4, 3);
    assert_eq!(d.show(&[0u8; 11], Mode::DU).err(), Some(ShowError::PrepareImageBuffer));
    let cmds = d.show(&[9u8; 20], Mode::DU).unwrap();
    assert_eq!(payload(&cmds[0]).len(), 20 + 12);
}

#[test]
fn command_block_wrapper_layout() {
    let c = Display::inquiry_command();
    let w = c.block_wrapper(0x0a0b0c0d);
    assert_eq!(w.len(), 31);
    assert_eq!(&w[0..4], b"USBC");
    assert_eq!(&w[4..8], &[0x0d, 0x0c, 0x0b, 0x0a]);
    assert_eq!(&w[8..12], &36u32.to_le_bytes());
    assert_eq!(w[12], 0x80);
    assert_eq!(w[13], 0);
    assert_eq!(w[14], 16);
    assert_eq!(&w[15..31], &INQUIRY_CMD);
    let d = panel(2, 2);
    let out = d.clear().block_wrapper(1);
    assert_eq!(out[12], 0);
    assert_eq!(&out[8..12], &28u32.to_le_bytes());
}

#[test]
fn status_wrapper_checks() {
    let mut csw = b"USBS".to_vec();
    csw.extend_from_slice(&5u32.to_le_bytes());
    csw.extend_from_slice(&0u32.to_le_bytes());
    csw.push(0);
    assert_eq!(check_status(&csw, 5), Ok(()));
    assert_eq!(check_status(&csw, 6), Err(StatusError::TagMismatch));
    assert_eq!(check_status(&csw[..12], 5), Err(StatusError::Malformed));
    let mut bad = csw.clone();
    bad[0] = b'X';
    assert_eq!(check_status(&bad, 5), Err(StatusError::Malformed));
    let mut failed = csw.clone();
    failed[12] = 1;
    assert_eq!(check_status(&failed, 5), Err(StatusError::Failed(1)));
}

#[test]
fn picture_new_checks_the_byte_count() {
    let p = Picture::new(2, 2, PixelLayout::Rgb, vec![7u8; 12]).unwrap();
    assert_eq!((p.width(), p.height(), p.layout()), (2, 2, PixelLayout::Rgb));
    assert_eq!(p.pixels(), &[7u8; 12][..]);
    assert!(Picture::new(2, 2, PixelLayout::Rgb, vec![7u8; 11]).is_none());
    assert!(Picture::new(2, 2, PixelLayout::Rgba, vec![7u8; 12]).is_none());
    assert!(Picture::new(0, 5, PixelLayout::Grey, Vec::new()).is_some());
    assert_eq!(PixelLayout::GreyAlpha.channels(), 2);
}

#[test]
fn show_picture_converts_colour_to_grey() {
    let d = panel(4, 3);
    let red: Vec<u8> = [255u8, 0, 0].iter().copied().cycle().take(36).collect();
    let pic = Picture::new(4, 3, PixelLayout::Rgb, red).unwrap();
    let cmds = d.show_picture(&pic, Mode::GC16).unwrap();
    assert_eq!(cmds.len(), 2);
    assert_eq!(payload(&cmds[0])[20..], [54u8; 12][..]);
    assert_eq!(payload(&cmds[1]), &le(&[0x0012_3456, 2, 0, 0, 4, 3, 1]));
}

#[test]
fn show_picture_scales_a_picture_to_the_panel() {
    let d = panel(4, 3);
    let pic = Picture::new(8, 6, PixelLayout::Grey, vec![77u8; 48]).unwrap();
    let cmds = d.show_picture(&pic, Mode::DU).unwrap();
    assert_eq!(payload(&cmds[0])[..20], le(&[0x0012_3456, 0, 0, 4, 3])[..]);
    assert_eq!(payload(&cmds[0])[20..], [77u8; 12][..]);
    assert_eq!(payload(&cmds[1]), &le(&[0x0012_3456, 1, 0, 0, 4, 3, 1]));
}

#[test]
fn show_backside_turns_the_picture_when_flipped() {
    let d = panel(4, 3);
    let pixels: Vec<u8> = (0..12).collect();
    let pic = Picture::new(4, 3, PixelLayout::Grey, pixels.clone()).unwrap();
    let straight = d.show_backside(&pic, false).unwrap();
    assert_eq!(payload(&straight[0])[20..], pixels[..]);
    let turned = d.show_backside(&pic, true).unwrap();
    let reversed: Vec<u8> = pixels.iter().rev().copied().collect();
    assert_eq!(payload(&turned[0])[20..], reversed[..]);
    assert_eq!(payload(&turned[1]), &le(&[0x0012_3456, 2, 0, 0, 4, 3, 1]));
}

#[test]
fn show_turned_reverses_the_panel_bytes() {
    let d = panel(4, 3);
    let grey: Vec<u8> = (0..20).collect();
    let turned = d.show_turned(&grey, true).unwrap();
    let expected: Vec<u8> = (0..12).rev().collect();
    assert_eq!(payload(&turned[0])[20..], expected[..]);
    let straight = d.show_turned(&grey, false).unwrap();
    assert_eq!(payload(&straight[0])[20..], grey[..12]);
    assert_eq!(d.show_turned(&grey[..11], true).err(), Some(ShowError::PrepareImageBuffer));
}

#[test]
fn dashboard_redraw_clears_then_draws() {
    let d = panel(4, 3);
    let mut config = ServerConfig::empty();
    let frame: Vec<u8> = (0..6).collect();
    let cmds = dashboard_commands(&d, &frame, 3, 2, &config).unwrap();
    assert_eq!(cmds.len(), 4);
    assert_eq!(payload(&cmds[0])[..20], le(&[0x0012_3456, 0, 0, 4, 3])[..]);
    assert_eq!(payload(&cmds[0])[20..], [255u8; 12][..]);
    assert_eq!(payload(&cmds[1]), &le(&[0x0012_3456, 2, 0, 0, 4, 3, 1]));
    assert_eq!(payload(&cmds[2])[..20], le(&[0x0012_3456, 0, 0, 3, 2])[..]);
    assert_eq!(payload(&cmds[2])[20..], frame[..]);
    assert_eq!(payload(&cmds[3]), &le(&[0x0012_3456, 1, 0, 0, 4, 3, 1]));
    config.flip = Some(true);
    config.theme = Some(Theme::Light);
    let cmds = dashboard_commands(&d, &frame, 3, 2, &config).unwrap();
    assert_eq!(payload(&cmds[0])[20..], [0u8; 12][..]);
    assert_eq!(payload(&cmds[2])[20..], [5u8, 4, 3, 2, 1, 0][..]);
}

use egui_sdl2_canvas::PixelFormat;

#[test]
fn little_endian_machines_use_abgr() {
    assert_eq!(PixelFormat::for_byte_order(true), PixelFormat::Abgr8888);
}

#[test]
fn big_endian_machines_use_rgba() {
    assert_eq!(PixelFormat::for_byte_order(false), PixelFormat::Rgba8888);
}

#[test]
fn pixel_of_the_chosen_format_lies_in_memory_as_rgba() {
    let little_endian = u16::from_ne_bytes([1, 0]) == 1;
    let format = PixelFormat::for_byte_order(little_endian);
    assert_eq!(format.pack(1, 2, 3, 4).to_ne_bytes(), [1, 2, 3, 4]);
    assert_eq!(format.pack(255, 0, 128, 7).to_ne_bytes(), [255, 0, 128, 7]);
}

#[test]
fn formats_pack_their_channels_from_the_top_byte_down() {
    assert_eq!(PixelFormat::Rgba8888.pack(0x11, 0x22, 0x33, 0x44), 0x11223344);
    assert_eq!(PixelFormat::Abgr8888.pack(0x11, 0x22, 0x33, 0x44), 0x44332211);
    assert_eq!(PixelFormat::Rgba8888.pack(1, 2, 3, 4).to_be_bytes(), [1, 2, 3, 4]);
    assert_eq!(PixelFormat::Abgr8888.pack(1, 2, 3, 4).to_le_bytes(), [1, 2, 3, 4]);
}

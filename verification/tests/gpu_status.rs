use psx_core::gpu::gpu_stat_register::{
    ColorDepth, DmaDirection, Field, GpuStatRegister, TextureColors, VideoMode,
};
use psx_core::gpu::Gpu;

#[test]
fn reset_status_packs_to_ready_bits_only() {
    let reg = GpuStatRegister::new();
    // only the three hard-wired ready bits are set at reset
    assert_eq!(reg.value(), 0b111 << 26);
}

#[test]
fn draw_mode_fields_are_unpacked() {
    let mut reg = GpuStatRegister::new();
    // x base 5, y base 1, semi-transparency 2, eight-bit textures,
    // dithering on, draw-to-display off, y base two set
    let word = 5 | (1 << 4) | (2 << 5) | (1 << 7) | (1 << 9) | (1 << 11);
    reg.update_draw_mode(word);
    assert_eq!(reg.texture_x_base, 5);
    assert_eq!(reg.texture_y_base1, 1);
    assert_eq!(reg.semi_transparency, 2);
    assert!(matches!(reg.texture_colors, TextureColors::EightBit));
    assert!(reg.dither_enabled);
    assert!(!reg.draw_to_display);
    assert_eq!(reg.texture_y_base2, 1);
}

#[test]
fn status_word_packs_every_field() {
    let reg = GpuStatRegister {
        texture_x_base: 3,
        texture_y_base1: 1,
        texture_y_base2: 1,
        semi_transparency: 2,
        texture_colors: TextureColors::FifteenBit,
        dither_enabled: true,
        draw_to_display: true,
        force_mask_bit: true,
        preserved_masked_pixels: true,
        interlace_field: Field::Top,
        reverse_flag: false,
        hres1: 2,
        hres2: 1,
        vres: 1,
        video_mode: VideoMode::Pal,
        display_color_depth: ColorDepth::TwentyFourBit,
        vertical_interlace: true,
        display_enable: true,
        irq_enabled: true,
        dma_dir: DmaDirection::GpuReadToCpu,
        ready_for_command: true,
        ready_vram_to_cpu: true,
        ready_rcv_dma_block: true,
        even_odd: false,
    };
    let expected: u32 = 3
        | (1 << 4)
        | (2 << 5)
        | (2 << 7)
        | (1 << 9)
        | (1 << 10)
        | (1 << 11)
        | (1 << 12)
        | (1 << 13)
        | (1 << 15)
        | (1 << 16)
        | (2 << 17)
        | (1 << 19)
        | (1 << 20)
        | (1 << 21)
        | (1 << 22)
        | (1 << 23)
        | (1 << 24)
        | (0b111 << 26)
        | (3 << 29)
        | (1 << 25);
    assert_eq!(reg.value(), expected);
}

#[test]
fn cpu_to_gp0_request_mirrors_bit_twenty_eight() {
    let mut reg = GpuStatRegister::new();
    reg.dma_dir = DmaDirection::CputoGP0;
    // bit 28 is one of the hard-wired ready bits, so the request bit
    // mirrors it as set
    assert_eq!((reg.value() >> 28) & 1, 1);
    assert_eq!((reg.value() >> 25) & 1, 1);
}

#[test]
fn command_intake_records_words_in_order() {
    let mut gpu = Gpu::new();
    gpu.gp0(0x1111_0000);
    gpu.gp0(0x2222_0000);
    assert_eq!(gpu.commands, vec![0x1111_0000, 0x2222_0000]);
}

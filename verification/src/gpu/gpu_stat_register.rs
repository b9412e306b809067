use vstd::prelude::*;

verus! {

/// Texture color depth selected by the draw mode.
#[derive(Clone, Copy, PartialEq, Eq, Structural)]
pub enum TextureColors {
    FourBit,
    EightBit,
    FifteenBit,
}

impl TextureColors {
    /// Encoding of the variant in the status word.
    pub open spec fn spec_bits(self) -> u32 {
        match self {
            TextureColors::FourBit => 0,
            TextureColors::EightBit => 1,
            TextureColors::FifteenBit => 2,
        }
    }

    pub fn bits(self) -> (r: u32)
        ensures
            r == self.spec_bits(),
    {
        match self {
            TextureColors::FourBit => 0,
            TextureColors::EightBit => 1,
            TextureColors::FifteenBit => 2,
        }
    }
}

/// Interlace field currently being displayed.
#[derive(Clone, Copy, PartialEq, Eq, Structural)]
pub enum Field {
    Bottom,
    Top,
}

impl Field {
    /// Encoding of the variant in the status word.
    pub open spec fn spec_bits(self) -> u32 {
        match self {
            Field::Bottom => 0,
            Field::Top => 1,
        }
    }

    pub fn bits(self) -> (r: u32)
        ensures
            r == self.spec_bits(),
    {
        match self {
            Field::Bottom => 0,
            Field::Top => 1,
        }
    }
}

/// Video standard of the display output.
#[derive(Clone, Copy, PartialEq, Eq, Structural)]
pub enum VideoMode {
    Ntsc,
    Pal,
}

impl VideoMode {
    /// Encoding of the variant in the status word.
    pub open spec fn spec_bits(self) -> u32 {
        match self {
            VideoMode::Ntsc => 0,
            VideoMode::Pal => 1,
        }
    }

    pub fn bits(self) -> (r: u32)
        ensures
            r == self.spec_bits(),
    {
        match self {
            VideoMode::Ntsc => 0,
            VideoMode::Pal => 1,
        }
    }
}

/// Color depth of the display area.
#[derive(Clone, Copy, PartialEq, Eq, Structural)]
pub enum ColorDepth {
    FifteenBit,
    TwentyFourBit,
}

impl ColorDepth {
    /// Encoding of the variant in the status word.
    pub open spec fn spec_bits(self) -> u32 {
        match self {
            ColorDepth::FifteenBit => 0,
            ColorDepth::TwentyFourBit => 1,
        }
    }

    pub fn bits(self) -> (r: u32)
        ensures
            r == self.spec_bits(),
    {
        match self {
            ColorDepth::FifteenBit => 0,
            ColorDepth::TwentyFourBit => 1,
        }
    }
}

/// DMA direction selected in the status register.
#[derive(Clone, Copy, PartialEq, Eq, Structural)]
pub enum DmaDirection {
    Off,
    CputoGP0,
    GpuReadToCpu,
}

impl DmaDirection {
    /// Encoding of the variant in the status word.
    pub open spec fn spec_bits(self) -> u32 {
        match self {
            DmaDirection::Off => 0,
            DmaDirection::CputoGP0 => 2,
            DmaDirection::GpuReadToCpu => 3,
        }
    }

    pub fn bits(self) -> (r: u32)
        ensures
            r == self.spec_bits(),
    {
        match self {
            DmaDirection::Off => 0,
            DmaDirection::CputoGP0 => 2,
            DmaDirection::GpuReadToCpu => 3,
        }
    }
}

/// The graphics processor's status register, kept as named fields and
/// packed into its 32-bit hardware encoding on demand.
pub struct GpuStatRegister {
    pub texture_x_base: u8,
    pub texture_y_base1: u8,
    pub texture_y_base2: u8,
    pub semi_transparency: u8,
    pub texture_colors: TextureColors,
    pub dither_enabled: bool,
    pub draw_to_display: bool,
    pub force_mask_bit: bool,
    pub preserved_masked_pixels: bool,
    pub interlace_field: Field,
    pub reverse_flag: bool,
    pub hres1: u8,
    pub hres2: u8,
    pub vres: u8,
    pub video_mode: VideoMode,
    pub display_color_depth: ColorDepth,
    pub vertical_interlace: bool,
    pub display_enable: bool,
    pub irq_enabled: bool,
    pub dma_dir: DmaDirection,
    pub ready_for_command: bool,
    pub ready_vram_to_cpu: bool,
    pub ready_rcv_dma_block: bool,
    pub even_odd: bool,
}

/// One bit of the status word for a boolean field.
pub open spec fn spec_bit(b: bool) -> u32 {
    if b {
        1
    } else {
        0
    }
}

fn bit(b: bool) -> (r: u32)
    ensures
        r == spec_bit(b),
{
    if b {
        1
    } else {
        0
    }
}

impl GpuStatRegister {
    /// The register's state at reset.
    pub open spec fn spec_reset() -> GpuStatRegister {
        GpuStatRegister {
            texture_x_base: 0,
            texture_y_base1: 0,
            texture_y_base2: 0,
            semi_transparency: 0,
            texture_colors: TextureColors::FourBit,
            dither_enabled: false,
            draw_to_display: false,
            force_mask_bit: false,
            preserved_masked_pixels: false,
            interlace_field: Field::Bottom,
            reverse_flag: false,
            hres1: 0,
            hres2: 0,
            vres: 0,
            video_mode: VideoMode::Ntsc,
            display_color_depth: ColorDepth::FifteenBit,
            vertical_interlace: false,
            display_enable: false,
            irq_enabled: false,
            dma_dir: DmaDirection::Off,
            ready_for_command: true,
            ready_vram_to_cpu: true,
            ready_rcv_dma_block: true,
            even_odd: false,
        }
    }

    pub fn new() -> (reg: GpuStatRegister)
        ensures
            reg == GpuStatRegister::spec_reset(),
    {
        GpuStatRegister {
            texture_x_base: 0,
            texture_y_base1: 0,
            texture_y_base2: 0,
            semi_transparency: 0,
            texture_colors: TextureColors::FourBit,
            dither_enabled: false,
            draw_to_display: false,
            force_mask_bit: false,
            preserved_masked_pixels: false,
            interlace_field: Field::Bottom,
            reverse_flag: false,
            hres1: 0,
            hres2: 0,
            vres: 0,
            video_mode: VideoMode::Ntsc,
            display_color_depth: ColorDepth::FifteenBit,
            vertical_interlace: false,
            display_enable: false,
            irq_enabled: false,
            dma_dir: DmaDirection::Off,
            ready_for_command: true,
            ready_vram_to_cpu: true,
            ready_rcv_dma_block: true,
            even_odd: false,
        }
    }

    /// Load the draw-mode fields from the low bits of a draw-mode command
    /// word. The texture-depth encoding 3 is reserved and not accepted.
    pub fn update_draw_mode(&mut self, val: u32)
        requires
            (val >> 7) & 0b11 != 3,
        ensures
            final(self).texture_x_base == (val & 0xf) as u8,
            final(self).texture_y_base1 == ((val >> 4) & 0b1) as u8,
            final(self).semi_transparency == ((val >> 5) & 0b11) as u8,
            final(self).texture_colors == (if (val >> 7) & 0b11 == 0 {
                TextureColors::FourBit
            } else if (val >> 7) & 0b11 == 1 {
                TextureColors::EightBit
            } else {
                TextureColors::FifteenBit
            }),
            final(self).dither_enabled == ((val >> 9) & 0b1 == 1),
            final(self).draw_to_display == ((val >> 10) & 0b1 == 1),
            final(self).texture_y_base2 == ((val >> 11) & 0b1) as u8,
            final(self).force_mask_bit == old(self).force_mask_bit,
            final(self).preserved_masked_pixels == old(self).preserved_masked_pixels,
            final(self).interlace_field == old(self).interlace_field,
            final(self).reverse_flag == old(self).reverse_flag,
            final(self).hres1 == old(self).hres1,
            final(self).hres2 == old(self).hres2,
            final(self).vres == old(self).vres,
            final(self).video_mode == old(self).video_mode,
            final(self).display_color_depth == old(self).display_color_depth,
            final(self).vertical_interlace == old(self).vertical_interlace,
            final(self).display_enable == old(self).display_enable,
            final(self).irq_enabled == old(self).irq_enabled,
            final(self).dma_dir == old(self).dma_dir,
            final(self).ready_for_command == old(self).ready_for_command,
            final(self).ready_vram_to_cpu == old(self).ready_vram_to_cpu,
            final(self).ready_rcv_dma_block == old(self).ready_rcv_dma_block,
            final(self).even_odd == old(self).even_odd,
    {
        self.texture_x_base = (val & 0xf) as u8;
        self.texture_y_base1 = ((val >> 4) & 0b1) as u8;
        self.semi_transparency = ((val >> 5) & 0b11) as u8;
        let depth = (val >> 7) & 0b11;
        self.texture_colors = if depth == 0 {
            TextureColors::FourBit
        } else if depth == 1 {
            TextureColors::EightBit
        } else {
            TextureColors::FifteenBit
        };
        self.dither_enabled = (val >> 9) & 0b1 == 1;
        self.draw_to_display = (val >> 10) & 0b1 == 1;
        self.texture_y_base2 = ((val >> 11) & 0b1) as u8;
    }

    /// The 32-bit hardware encoding of the register.
    pub open spec fn spec_value(self) -> u32 {
        let packed = (self.texture_x_base as u32) | ((self.texture_y_base1 as u32) << 4) | ((
        self.semi_transparency as u32) << 5) | (self.texture_colors.spec_bits() << 7) | (spec_bit(
            self.dither_enabled,
        ) << 9) | (spec_bit(self.draw_to_display) << 10) | (spec_bit(self.force_mask_bit) << 11) | (
        spec_bit(self.preserved_masked_pixels) << 12) | (self.interlace_field.spec_bits() << 13) | ((
        self.texture_y_base2 as u32) << 15) | ((self.hres2 as u32) << 16) | ((self.hres1 as u32)
            << 17) | ((self.vres as u32) << 19) | (self.video_mode.spec_bits() << 20) | (
        self.display_color_depth.spec_bits() << 21) | (spec_bit(self.vertical_interlace) << 22) | (
        spec_bit(self.display_enable) << 23) | (spec_bit(self.irq_enabled) << 24) | (0b111u32 << 26)
            | (self.dma_dir.spec_bits() << 29);
        let dma_request = match self.dma_dir {
            DmaDirection::Off => 0u32,
            DmaDirection::CputoGP0 => (packed >> 28) & 0b1,
            DmaDirection::GpuReadToCpu => 1u32,
        };
        packed | (dma_request << 25)
    }

    pub fn value(&self) -> (r: u32)
        ensures
            r == self.spec_value(),
    {
        let packed = (self.texture_x_base as u32) | ((self.texture_y_base1 as u32) << 4) | ((
        self.semi_transparency as u32) << 5) | (self.texture_colors.bits() << 7) | (bit(
            self.dither_enabled,
        ) << 9) | (bit(self.draw_to_display) << 10) | (bit(self.force_mask_bit) << 11) | (bit(
            self.preserved_masked_pixels,
        ) << 12) | (self.interlace_field.bits() << 13) | ((self.texture_y_base2 as u32) << 15) | ((
        self.hres2 as u32) << 16) | ((self.hres1 as u32) << 17) | ((self.vres as u32) << 19) | (
        self.video_mode.bits() << 20) | (self.display_color_depth.bits() << 21) | (bit(
            self.vertical_interlace,
        ) << 22) | (bit(self.display_enable) << 23) | (bit(self.irq_enabled) << 24) | (0b111u32
            << 26) | (self.dma_dir.bits() << 29);
        let dma_request = match self.dma_dir {
            DmaDirection::Off => 0u32,
            DmaDirection::CputoGP0 => (packed >> 28) & 0b1,
            DmaDirection::GpuReadToCpu => 1u32,
        };
        packed | (dma_request << 25)
    }
}

} // verus!

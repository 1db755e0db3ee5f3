//! Colour profiles: the two ends of the ring gradient and a brightness offset.

use vstd::prelude::*;

verus! {

/// Brightness offset of the neutral preset.
pub const NEUTRAL_ADJUSTMENT: i32 = 0;

/// Brightness offset of the brightened preset.
pub const BRIGHT_ADJUSTMENT: i32 = 20;

/// The tone of the rings at their darkest, shared by both presets.
pub open spec fn preset_dark() -> Seq<u8> {
    seq![120u8, 70u8, 70u8]
}

/// The tone of the rings at their lightest, shared by both presets.
pub open spec fn preset_light() -> Seq<u8> {
    seq![208u8, 158u8, 70u8]
}

/// How ring values become colours: a ring value of 0 maps to `dark_color`,
/// 1 to `light_color`, and `brightness_adjustment` is then added to every
/// channel of every pixel.
#[derive(Debug, Clone, Copy, PartialEq, Eq)]
pub struct WoodProfile {
    pub brightness_adjustment: i32,
    pub dark_color: [u8; 3],
    pub light_color: [u8; 3],
}

impl WoodProfile {
    /// The neutral preset: the default tones, left as they are.
    pub fn wood_1() -> (p: WoodProfile)
        ensures
            p.brightness_adjustment == NEUTRAL_ADJUSTMENT,
            p.dark_color@ == preset_dark(),
            p.light_color@ == preset_light(),
    {
        let p = WoodProfile {
            brightness_adjustment: NEUTRAL_ADJUSTMENT,
            dark_color: [120, 70, 70],
            light_color: [208, 158, 70],
        };
        assert(p.dark_color@ =~= preset_dark());
        assert(p.light_color@ =~= preset_light());
        p
    }

    /// The brightened preset: the default tones, lifted by twenty.
    pub fn bright_wood() -> (p: WoodProfile)
        ensures
            p.brightness_adjustment == BRIGHT_ADJUSTMENT,
            p.dark_color@ == preset_dark(),
            p.light_color@ == preset_light(),
    {
        let p = WoodProfile {
            brightness_adjustment: BRIGHT_ADJUSTMENT,
            dark_color: [120, 70, 70],
            light_color: [208, 158, 70],
        };
        assert(p.dark_color@ =~= preset_dark());
        assert(p.light_color@ =~= preset_light());
        p
    }
}

} // verus!

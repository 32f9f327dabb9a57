//! The pixel-art flamingo shown while the application starts.

use vstd::prelude::*;

verus! {

#[verifier::external_type_specification]
#[verifier::external_body]
pub struct ExInstant(std::time::Instant);

/// Calls `std::time::Instant::now`; nothing is claimed of the instant.
#[verifier::external_body]
fn now() -> std::time::Instant {
    std::time::Instant::now()
}

/// Logo width in cells.
pub const WIDTH: u16 = 20;

/// Logo height in cells.
pub const HEIGHT: u16 = 12;

/// Pixel-art flamingo (one glyph = one cell). Leading spaces are
/// transparent, so column alignment matters: `l` light pink (head and neck),
/// `p` pink (body), `b` black beak, `k` legs.
pub const ART: [&'static str; 12] = [
    "      lll",
    "     lllll",
    "   bblll l",
    "     lll",
    "      ll",
    "      lll",
    "     ppppp",
    "   ppppppppp",
    "   pppppppppp",
    "    ppppppp",
    "      k k",
    "      k k",
];

/// The color of an art glyph, as RGB; `None` for transparent cells.
pub open spec fn spec_color_for(ch: char) -> Option<(u8, u8, u8)> {
    if ch == 'l' {
        Some((250u8, 180u8, 200u8))
    } else if ch == 'p' {
        Some((244u8, 138u8, 170u8))
    } else if ch == 'b' {
        Some((30u8, 30u8, 30u8))
    } else if ch == 'k' {
        Some((224u8, 120u8, 150u8))
    } else {
        None
    }
}

/// The color of an art glyph, as RGB; `None` for transparent cells.
pub fn color_for(ch: char) -> (r: Option<(u8, u8, u8)>)
    ensures
        r == spec_color_for(ch),
{
    match ch {
        'l' => Some((250, 180, 200)),
        'p' => Some((244, 138, 170)),
        'b' => Some((30, 30, 30)),
        'k' => Some((224, 120, 150)),
        _ => None,
    }
}

/// The splash-screen logo.
#[derive(Debug)]
pub struct Logo {
    /// When the logo was created.
    pub init_time: std::time::Instant,
    /// Whether the splash screen is over.
    pub is_rendered: bool,
}

impl Default for Logo {
    fn default() -> (l: Logo)
        ensures
            !l.is_rendered,
    {
        Logo { init_time: now(), is_rendered: false }
    }
}

impl Logo {
    /// Returns the size of the logo.
    pub fn get_size(&self) -> (r: (u16, u16))
        ensures
            r == (WIDTH, HEIGHT),
    {
        (WIDTH, HEIGHT)
    }

    /// Where the splash screen draws the logo in a `width` x `height` frame,
    /// as `(x, y, width, height)`: centered while the splash screen is on
    /// and the frame is larger than the logo, otherwise nowhere.
    pub fn placement(&self, width: u16, height: u16) -> (r: Option<(u16, u16, u16, u16)>)
        ensures
            r == (if !self.is_rendered && WIDTH < width && HEIGHT < height {
                Some(((width / 2 - WIDTH / 2) as u16, (height / 2 - HEIGHT / 2) as u16, WIDTH, HEIGHT))
            } else {
                None
            }),
    {
        if !self.is_rendered && WIDTH < width && HEIGHT < height {
            Some((width / 2 - WIDTH / 2, height / 2 - HEIGHT / 2, WIDTH, HEIGHT))
        } else {
            None
        }
    }

    /// Ends the splash screen once the logo has been shown for more than
    /// half a second (`elapsed_ms` since `init_time`).
    pub fn tick(&mut self, elapsed_ms: u128)
        ensures
            final(self).is_rendered == (elapsed_ms > 500),
            final(self).init_time == old(self).init_time,
    {
        self.is_rendered = elapsed_ms > 500;
    }
}

} // verus!

use crate::color::RGBA8;
use crate::frame::Vector3Bits;
use vstd::prelude::*;

verus! {

/// The display mode of the window.
#[derive(Copy, Clone, Debug, PartialEq, Eq, Structural)]
pub enum DisplayMode {
    /// Normal windowed mode.
    Windowed {
        /// The width of the window.
        width: i32,
        /// The height of the window.
        height: i32,
        /// If the window is resizable.
        resizable: bool,
    },
    /// For "fake" fullscreen that takes the size of the desktop.
    WindowedFullscreen,
    /// For "real" fullscreen with a videomode change.
    Fullscreen,
}

/// Enumeration for all possible vsync settings.
#[derive(Copy, Clone, Debug, PartialEq, Eq, Structural)]
pub enum Vsync {
    /// Vsync will be disabled.
    Disabled,
    /// Vsync will be enabled.
    Enabled,
    /// Like vsync, but a frame that missed the vertical retrace is swapped at
    /// once. Falls back to normal vsync where it is not supported.
    Adaptive,
}

/// Configuration settings for the window.
#[derive(Clone, Debug, PartialEq)]
pub struct WindowSettings {
    /// The title of the window.
    pub title: String,
    /// The display mode of the window.
    pub display_mode: DisplayMode,
    /// Vsync mode for the window.
    pub vsync: Vsync,
}

impl Default for WindowSettings {
    /// A resizable window of 500 by 500 with vsync disabled.
    fn default() -> (settings: WindowSettings)
        ensures
            settings.title@ == "Storm Engine"@,
            settings.display_mode == (DisplayMode::Windowed {
                width: 500,
                height: 500,
                resizable: true,
            }),
            settings.vsync == Vsync::Disabled,
    {
        WindowSettings {
            title: "Storm Engine".to_owned(),
            display_mode: DisplayMode::Windowed { width: 500, height: 500, resizable: true },
            vsync: Vsync::Disabled,
        }
    }
}

/// Enumeration for all the loadable texture formats.
#[derive(Copy, Clone, Debug, PartialEq, Eq, Structural)]
pub enum TextureFormat {
    PNG,
}

/// Token to reference a font with.
#[derive(Copy, Clone, Debug, PartialEq, Eq, Structural)]
pub struct FontToken {
    key: usize,
}

impl FontToken {
    /// The key of the font.
    pub closed spec fn view(&self) -> usize {
        self.key
    }

    /// The token of the font with the given key.
    pub fn new(key: usize) -> (token: FontToken)
        ensures
            token@ == key,
    {
        FontToken { key }
    }

    /// The key of the font.
    pub fn key(&self) -> (key: usize)
        ensures
            key == self@,
    {
        self.key
    }
}

impl Default for FontToken {
    /// The engine default font, whose key is 0.
    fn default() -> (token: FontToken)
        ensures
            token@ == 0,
    {
        FontToken { key: 0 }
    }
}

/// Configuration settings for text.
#[derive(Clone, Debug, PartialEq)]
pub struct Text {
    /// Text that's being drawn.
    pub string: String,
    /// Position of the bottom left corner of the text, and its depth, in
    /// pixels, each as the bit pattern of a single-precision number.
    pub pos: Vector3Bits,
    /// Max width of the text before it's pushed to a new line, in pixels, as
    /// the bit pattern of a single-precision number. With None the text is
    /// not wrapped.
    pub max_width: Option<u32>,
    /// Amount to scale the text by as defined by the font.
    pub scale: u32,
    /// Color to use for the text.
    pub color: RGBA8,
    /// Font to use for the text.
    pub font: FontToken,
}

impl Default for Text {
    /// Empty black text at the origin, unwrapped, of scale 24, in the engine
    /// font.
    fn default() -> (text: Text)
        ensures
            text.string@ == Seq::<char>::empty(),
            text.pos == (Vector3Bits { x: 0, y: 0, z: 0 }),
            text.max_width is None,
            text.scale == 24,
            text.color == (RGBA8 { r: 0, g: 0, b: 0, a: 255 }),
            text.font@ == 0,
    {
        Text {
            string: String::new(),
            pos: Vector3Bits { x: 0, y: 0, z: 0 },
            max_width: None,
            scale: 24,
            color: RGBA8::new_raw(0, 0, 0, 255),
            font: FontToken::default(),
        }
    }
}

impl Text {
    /// Text with exactly the given members.
    pub fn new(
        string: String,
        pos: Vector3Bits,
        max_width: Option<u32>,
        scale: u32,
        color: RGBA8,
        font: FontToken,
    ) -> (text: Text)
        ensures
            text == (Text { string, pos, max_width, scale, color, font }),
    {
        Text { string, pos, max_width, scale, color, font }
    }

    /// Replaces the text that is drawn and keeps everything else.
    pub fn set_string(&mut self, string: &str)
        ensures
            final(self).string@ == string@,
            final(self).pos == old(self).pos,
            final(self).max_width == old(self).max_width,
            final(self).scale == old(self).scale,
            final(self).color == old(self).color,
            final(self).font == old(self).font,
    {
        self.string = string.to_owned();
    }
}

} // verus!

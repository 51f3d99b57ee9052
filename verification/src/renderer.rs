//! Rendering resources of the GPU front end. They hold no state of their own
//! yet: glyph rasterization, text shaping and the draw pipeline live in the
//! windowing layer.

use vstd::prelude::*;

verus! {

/// Glyph atlas for caching rasterized glyphs in a GPU texture.
pub struct GlyphAtlas {
    _placeholder: (),
}

impl GlyphAtlas {
    pub fn new() -> Self {
        GlyphAtlas { _placeholder: () }
    }
}

impl Default for GlyphAtlas {
    fn default() -> Self {
        GlyphAtlas::new()
    }
}

/// Text shaping and layout for the editor viewport.
pub struct TextLayout {
    _placeholder: (),
}

impl TextLayout {
    pub fn new() -> Self {
        TextLayout { _placeholder: () }
    }
}

impl Default for TextLayout {
    fn default() -> Self {
        TextLayout::new()
    }
}

/// GPU render pipeline for text and rectangles.
pub struct RenderPipeline {
    _placeholder: (),
}

impl RenderPipeline {
    pub fn new() -> Self {
        RenderPipeline { _placeholder: () }
    }
}

impl Default for RenderPipeline {
    fn default() -> Self {
        RenderPipeline::new()
    }
}

/// Cursor rendering styles.
#[derive(Debug, Clone, Copy, PartialEq, Eq, Structural)]
pub enum CursorShape {
    Block,
    Line,
    Underline,
}

} // verus!

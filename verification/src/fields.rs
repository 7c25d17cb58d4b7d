//! The closed registry of configuration fields.
//!
//! The native side stores fields under string keys and writes their values
//! into untyped caller-provided memory. This registry fixes, at the type
//! level, which keys exist and which value shape each one carries, so that a
//! getter can only ever be asked for a field of its own type.

use vstd::prelude::*;

verus! {

/// The value shape a field carries across the native boundary.
#[derive(Clone, Copy, PartialEq, Eq, Structural, Debug)]
pub enum FieldType {
    /// One byte, zero meaning false.
    Bool,
    /// A zero-terminated byte buffer decoded as UTF-8.
    Str,
    /// One unsigned byte.
    U8,
    /// A signed 16-bit integer, two bytes little-endian.
    I16,
    /// An unsigned 64-bit integer, eight bytes little-endian.
    U64,
    /// An RGB triple, three bytes.
    Color,
}

/// A supported configuration field.
#[derive(Clone, Copy, PartialEq, Eq, Structural, Debug, Hash)]
pub enum Field {
    InitialWindow,
    QuitAfterWindowClosed,
    Title,
    WindowPositionX,
    WindowPositionY,
    WindowNewTabPosition,
    WindowDecoration,
    WindowTheme,
    WindowStepResize,
    Fullscreen,
    WindowTitleFontFamily,
    FocusFollowsMouse,
    Background,
    Foreground,
    BackgroundBlur,
    UnfocusedSplitFill,
    SplitDividerColor,
    ResizeOverlay,
    ResizeOverlayPosition,
    ResizeOverlayDuration,
    Maximize,
}

impl Field {
    /// The key under which the native side knows this field.
    pub open spec fn spec_key(self) -> Seq<char> {
        match self {
            Field::InitialWindow => "initial-window"@,
            Field::QuitAfterWindowClosed => "quit-after-window-closed"@,
            Field::Title => "title"@,
            Field::WindowPositionX => "window-position-x"@,
            Field::WindowPositionY => "window-position-y"@,
            Field::WindowNewTabPosition => "window-new-tab-position"@,
            Field::WindowDecoration => "window-decoration"@,
            Field::WindowTheme => "window-theme"@,
            Field::WindowStepResize => "window-step-resize"@,
            Field::Fullscreen => "fullscreen"@,
            Field::WindowTitleFontFamily => "window-title-font-family"@,
            Field::FocusFollowsMouse => "focus-follows-mouse"@,
            Field::Background => "background"@,
            Field::Foreground => "foreground"@,
            Field::BackgroundBlur => "background-blur"@,
            Field::UnfocusedSplitFill => "unfocused-split-fill"@,
            Field::SplitDividerColor => "split-divider-color"@,
            Field::ResizeOverlay => "resize-overlay"@,
            Field::ResizeOverlayPosition => "resize-overlay-position"@,
            Field::ResizeOverlayDuration => "resize-overlay-duration"@,
            Field::Maximize => "maximize"@,
        }
    }

    /// The key under which the native side knows this field.
    pub fn key(self) -> (r: &'static str)
        ensures
            r@ == self.spec_key(),
    {
        match self {
            Field::InitialWindow => "initial-window",
            Field::QuitAfterWindowClosed => "quit-after-window-closed",
            Field::Title => "title",
            Field::WindowPositionX => "window-position-x",
            Field::WindowPositionY => "window-position-y",
            Field::WindowNewTabPosition => "window-new-tab-position",
            Field::WindowDecoration => "window-decoration",
            Field::WindowTheme => "window-theme",
            Field::WindowStepResize => "window-step-resize",
            Field::Fullscreen => "fullscreen",
            Field::WindowTitleFontFamily => "window-title-font-family",
            Field::FocusFollowsMouse => "focus-follows-mouse",
            Field::Background => "background",
            Field::Foreground => "foreground",
            Field::BackgroundBlur => "background-blur",
            Field::UnfocusedSplitFill => "unfocused-split-fill",
            Field::SplitDividerColor => "split-divider-color",
            Field::ResizeOverlay => "resize-overlay",
            Field::ResizeOverlayPosition => "resize-overlay-position",
            Field::ResizeOverlayDuration => "resize-overlay-duration",
            Field::Maximize => "maximize",
        }
    }

    /// The value shape this field carries.
    pub open spec fn spec_type(self) -> FieldType {
        match self {
            Field::InitialWindow => FieldType::Bool,
            Field::QuitAfterWindowClosed => FieldType::Bool,
            Field::Title => FieldType::Str,
            Field::WindowPositionX => FieldType::I16,
            Field::WindowPositionY => FieldType::I16,
            Field::WindowNewTabPosition => FieldType::Str,
            Field::WindowDecoration => FieldType::Bool,
            Field::WindowTheme => FieldType::Str,
            Field::WindowStepResize => FieldType::Bool,
            Field::Fullscreen => FieldType::Bool,
            Field::WindowTitleFontFamily => FieldType::Str,
            Field::FocusFollowsMouse => FieldType::Bool,
            Field::Background => FieldType::Color,
            Field::Foreground => FieldType::Color,
            Field::BackgroundBlur => FieldType::U8,
            Field::UnfocusedSplitFill => FieldType::Color,
            Field::SplitDividerColor => FieldType::Color,
            Field::ResizeOverlay => FieldType::Str,
            Field::ResizeOverlayPosition => FieldType::Str,
            Field::ResizeOverlayDuration => FieldType::U64,
            Field::Maximize => FieldType::Bool,
        }
    }

    /// The value shape this field carries.
    pub fn field_type(self) -> (t: FieldType)
        ensures
            t == self.spec_type(),
    {
        match self {
            Field::InitialWindow => FieldType::Bool,
            Field::QuitAfterWindowClosed => FieldType::Bool,
            Field::Title => FieldType::Str,
            Field::WindowPositionX => FieldType::I16,
            Field::WindowPositionY => FieldType::I16,
            Field::WindowNewTabPosition => FieldType::Str,
            Field::WindowDecoration => FieldType::Bool,
            Field::WindowTheme => FieldType::Str,
            Field::WindowStepResize => FieldType::Bool,
            Field::Fullscreen => FieldType::Bool,
            Field::WindowTitleFontFamily => FieldType::Str,
            Field::FocusFollowsMouse => FieldType::Bool,
            Field::Background => FieldType::Color,
            Field::Foreground => FieldType::Color,
            Field::BackgroundBlur => FieldType::U8,
            Field::UnfocusedSplitFill => FieldType::Color,
            Field::SplitDividerColor => FieldType::Color,
            Field::ResizeOverlay => FieldType::Str,
            Field::ResizeOverlayPosition => FieldType::Str,
            Field::ResizeOverlayDuration => FieldType::U64,
            Field::Maximize => FieldType::Bool,
        }
    }
}

/// Every supported field, in registry order.
pub open spec fn spec_all_fields() -> Seq<Field> {
    seq![
        Field::InitialWindow,
        Field::QuitAfterWindowClosed,
        Field::Title,
        Field::WindowPositionX,
        Field::WindowPositionY,
        Field::WindowNewTabPosition,
        Field::WindowDecoration,
        Field::WindowTheme,
        Field::WindowStepResize,
        Field::Fullscreen,
        Field::WindowTitleFontFamily,
        Field::FocusFollowsMouse,
        Field::Background,
        Field::Foreground,
        Field::BackgroundBlur,
        Field::UnfocusedSplitFill,
        Field::SplitDividerColor,
        Field::ResizeOverlay,
        Field::ResizeOverlayPosition,
        Field::ResizeOverlayDuration,
        Field::Maximize,
    ]
}

/// Every supported field, in registry order.
pub fn all_fields() -> (r: Vec<Field>)
    ensures
        r@ == spec_all_fields(),
{
    let mut r: Vec<Field> = Vec::new();
    r.push(Field::InitialWindow);
    r.push(Field::QuitAfterWindowClosed);
    r.push(Field::Title);
    r.push(Field::WindowPositionX);
    r.push(Field::WindowPositionY);
    r.push(Field::WindowNewTabPosition);
    r.push(Field::WindowDecoration);
    r.push(Field::WindowTheme);
    r.push(Field::WindowStepResize);
    r.push(Field::Fullscreen);
    r.push(Field::WindowTitleFontFamily);
    r.push(Field::FocusFollowsMouse);
    r.push(Field::Background);
    r.push(Field::Foreground);
    r.push(Field::BackgroundBlur);
    r.push(Field::UnfocusedSplitFill);
    r.push(Field::SplitDividerColor);
    r.push(Field::ResizeOverlay);
    r.push(Field::ResizeOverlayPosition);
    r.push(Field::ResizeOverlayDuration);
    r.push(Field::Maximize);
    proof {
        assert(r@ =~= spec_all_fields());
    }
    r
}

/// The registry is closed and exhaustive: every supported field stands in
/// the registry list.
pub proof fn lemma_registry_exhaustive(f: Field)
    ensures
        spec_all_fields().contains(f),
{
    match f {
        Field::InitialWindow => assert(spec_all_fields()[0] == f),
        Field::QuitAfterWindowClosed => assert(spec_all_fields()[1] == f),
        Field::Title => assert(spec_all_fields()[2] == f),
        Field::WindowPositionX => assert(spec_all_fields()[3] == f),
        Field::WindowPositionY => assert(spec_all_fields()[4] == f),
        Field::WindowNewTabPosition => assert(spec_all_fields()[5] == f),
        Field::WindowDecoration => assert(spec_all_fields()[6] == f),
        Field::WindowTheme => assert(spec_all_fields()[7] == f),
        Field::WindowStepResize => assert(spec_all_fields()[8] == f),
        Field::Fullscreen => assert(spec_all_fields()[9] == f),
        Field::WindowTitleFontFamily => assert(spec_all_fields()[10] == f),
        Field::FocusFollowsMouse => assert(spec_all_fields()[11] == f),
        Field::Background => assert(spec_all_fields()[12] == f),
        Field::Foreground => assert(spec_all_fields()[13] == f),
        Field::BackgroundBlur => assert(spec_all_fields()[14] == f),
        Field::UnfocusedSplitFill => assert(spec_all_fields()[15] == f),
        Field::SplitDividerColor => assert(spec_all_fields()[16] == f),
        Field::ResizeOverlay => assert(spec_all_fields()[17] == f),
        Field::ResizeOverlayPosition => assert(spec_all_fields()[18] == f),
        Field::ResizeOverlayDuration => assert(spec_all_fields()[19] == f),
        Field::Maximize => assert(spec_all_fields()[20] == f),
    }
}

} // verus!

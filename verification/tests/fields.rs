use ghostty::fields::{all_fields, Field, FieldType};

#[test]
fn registry_holds_every_field_once() {
    let fields = all_fields();
    assert_eq!(fields.len(), 21);
    for (i, a) in fields.iter().enumerate() {
        for b in fields.iter().skip(i + 1) {
            assert_ne!(a, b);
            assert_ne!(a.key(), b.key());
        }
    }
}

#[test]
fn registry_keys_and_types() {
    assert_eq!(Field::Title.key(), "title");
    assert_eq!(Field::Title.field_type(), FieldType::Str);
    assert_eq!(Field::InitialWindow.key(), "initial-window");
    assert_eq!(Field::InitialWindow.field_type(), FieldType::Bool);
    assert_eq!(Field::WindowPositionX.key(), "window-position-x");
    assert_eq!(Field::WindowPositionX.field_type(), FieldType::I16);
    assert_eq!(Field::BackgroundBlur.key(), "background-blur");
    assert_eq!(Field::BackgroundBlur.field_type(), FieldType::U8);
    assert_eq!(Field::ResizeOverlayDuration.key(), "resize-overlay-duration");
    assert_eq!(Field::ResizeOverlayDuration.field_type(), FieldType::U64);
    assert_eq!(Field::SplitDividerColor.key(), "split-divider-color");
    assert_eq!(Field::SplitDividerColor.field_type(), FieldType::Color);
    assert_eq!(Field::Maximize.key(), "maximize");
    assert_eq!(Field::Maximize.field_type(), FieldType::Bool);
}

use ibl_sampler::preview::{InputPreview, InputPreviewPayload};

#[test]
fn new_preview_has_nothing_selected() {
    let preview: InputPreview<u32> = InputPreview::new();
    assert_eq!(preview, InputPreview { payload: InputPreviewPayload::NoneSelected, epoch: 0 });
}

#[test]
fn load_in_turn_is_applied() {
    let mut preview: InputPreview<&str> = InputPreview::new();
    let epoch = preview.begin_load();
    assert_eq!(epoch, 1);
    assert_eq!(preview.payload, InputPreviewPayload::Loading);
    assert!(preview.finish_load(epoch, "texture"));
    assert_eq!(preview, InputPreview { payload: InputPreviewPayload::Loaded("texture"), epoch: 1 });
}

#[test]
fn stale_load_is_dropped() {
    let mut preview: InputPreview<&str> = InputPreview::new();
    let first = preview.begin_load();
    let second = preview.begin_load();
    assert_eq!((first, second), (1, 2));
    assert!(!preview.finish_load(first, "old"));
    assert_eq!(preview, InputPreview { payload: InputPreviewPayload::Loading, epoch: 2 });
    assert!(preview.finish_load(second, "new"));
    assert_eq!(preview.payload, InputPreviewPayload::Loaded("new"));
    assert!(!preview.finish_load(first, "older"));
    assert_eq!(preview.payload, InputPreviewPayload::Loaded("new"));
}

#[test]
fn later_load_replaces_a_shown_preview() {
    let mut preview: InputPreview<u8> = InputPreview::new();
    let first = preview.begin_load();
    assert!(preview.finish_load(first, 1));
    let second = preview.begin_load();
    assert_eq!(preview.payload, InputPreviewPayload::Loading);
    assert!(preview.finish_load(second, 2));
    assert_eq!(preview, InputPreview { payload: InputPreviewPayload::Loaded(2), epoch: 2 });
}

use opossum::plot::{LabelDescription, LabelPos, PltBackEnd};

#[test]
fn plottable_labeldescription_new() {
    let l_desc = LabelDescription::new("test", LabelPos::Bottom);
    assert_eq!(l_desc.label_pos(), LabelPos::Bottom);
    assert_eq!(l_desc.label(), "test".to_owned());
}

#[test]
fn mod_labeldescription_new() {
    let l_desc = LabelDescription::new("test", LabelPos::Bottom);
    assert_eq!(l_desc.label_pos(), LabelPos::Bottom);
    assert_eq!(l_desc.label(), "test".to_owned());
}

#[test]
fn labeldescription_setters() {
    let mut l_desc = LabelDescription::new("a", LabelPos::Left);
    l_desc.set_label("b");
    assert_eq!(l_desc.label(), "b");
    assert_eq!(l_desc.label_pos(), LabelPos::Left);
    l_desc.set_label_pos(LabelPos::Top);
    assert_eq!(l_desc.label_pos(), LabelPos::Top);
    assert_eq!(l_desc.label(), "b");
}

#[test]
fn plot_defaults() {
    assert_eq!(LabelPos::default(), LabelPos::Left);
    assert_eq!(PltBackEnd::default(), PltBackEnd::Bitmap);
}

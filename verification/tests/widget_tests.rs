use hexotk::window::mbutton_of;
use hexotk::window::PointerButton;
use hexotk::DummyWidget;
use hexotk::DynData;
use hexotk::MButton;
use hexotk::WidgetData;
use hexotk::WidgetEvent;

#[test]
fn with_runs_closure_on_matching_type() {
    let mut wd = WidgetData::new(3, DynData::new(41u32));
    let r = wd.with(|x: &mut u32| {
        *x += 1;
        *x
    });
    assert_eq!(r, Some(42));
}

#[test]
fn with_keeps_changes_between_calls() {
    let mut wd = WidgetData::new(0, DynData::new(String::from("ab")));
    assert_eq!(wd.with(|s: &mut String| s.push('c')), Some(()));
    assert_eq!(wd.with(|s: &mut String| s.clone()), Some(String::from("abc")));
}

#[test]
fn with_other_type_gives_none() {
    let mut wd = WidgetData::new(7, DynData::new(1.5f64));
    let r = wd.with(|x: &mut u32| *x);
    assert_eq!(r, None);
    // the data is still there under its own type
    assert_eq!(wd.with(|x: &mut f64| *x), Some(1.5));
}

#[test]
fn apply_to_found_none_and_some() {
    let r: Option<u8> = WidgetData::apply_to_found(None::<&mut u8>, |x: &mut u8| *x);
    assert_eq!(r, None);
    let mut v = 10u8;
    let r = WidgetData::apply_to_found(Some(&mut v), |x: &mut u8| {
        *x *= 2;
        *x + 1
    });
    assert_eq!(r, Some(21));
    assert_eq!(v, 20);
}

#[test]
fn dummy_widget_new() {
    let w = DummyWidget::new();
    assert_eq!(format!("{:?}", w), "DummyWidget");
}

#[test]
fn mbutton_and_widget_event() {
    let b = MButton::Middle;
    let c = b;
    assert!(matches!(c, MButton::Middle));
    assert_eq!(format!("{:?}", MButton::Left), "Left");
    assert_eq!(format!("{:?}", MButton::Right), "Right");
    let e = WidgetEvent::Clicked;
    assert!(matches!(e.clone(), WidgetEvent::Clicked));
}

#[test]
fn pointer_buttons_map_to_mbuttons() {
    assert!(matches!(mbutton_of(PointerButton::Left), MButton::Left));
    assert!(matches!(mbutton_of(PointerButton::Right), MButton::Right));
    assert!(matches!(mbutton_of(PointerButton::Middle), MButton::Middle));
    assert!(matches!(mbutton_of(PointerButton::Back), MButton::Left));
    assert!(matches!(mbutton_of(PointerButton::Forward), MButton::Left));
    assert!(matches!(mbutton_of(PointerButton::Other(9)), MButton::Left));
}

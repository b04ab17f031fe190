use runnable::element::{
    div, group_bounds, paint_hover_listener, ActiveState, DispatchPhase, GroupBounds, Overflow,
    Style, StyleRefinement,
};

#[test]
fn active_state_is_none_only_when_unpressed() {
    assert!(ActiveState::default().is_none());
    assert!(!ActiveState { group: true, element: false }.is_none());
    assert!(!ActiveState { group: false, element: true }.is_none());
}

#[test]
fn press_and_release() {
    let mut s = ActiveState::default();
    assert!(!s.mouse_down(DispatchPhase::Capture, true, true));
    assert!(!s.mouse_down(DispatchPhase::Bubble, false, false));
    assert!(s.mouse_down(DispatchPhase::Bubble, true, false));
    assert_eq!(s, ActiveState { group: true, element: false });
    assert!(!s.mouse_down(DispatchPhase::Bubble, false, true));
    assert!(!s.mouse_up(DispatchPhase::Bubble));
    assert!(s.mouse_up(DispatchPhase::Capture));
    assert!(s.is_none());
    assert!(!s.mouse_up(DispatchPhase::Capture));
}

#[test]
fn group_bounds_are_a_stack_per_name() {
    let mut g: GroupBounds<(i32, i32)> = GroupBounds::new();
    let a = "a".to_string();
    let b = "b".to_string();
    assert_eq!(group_bounds(&a, &g), None);
    g.push(a.clone(), (1, 1));
    g.push(b.clone(), (2, 2));
    g.push(a.clone(), (3, 3));
    assert_eq!(group_bounds(&a, &g), Some((3, 3)));
    assert_eq!(group_bounds(&b, &g), Some((2, 2)));
    g.pop(&a);
    assert_eq!(group_bounds(&a, &g), Some((1, 1)));
    assert_eq!(group_bounds(&b, &g), Some((2, 2)));
    g.pop(&b);
    assert_eq!(group_bounds(&b, &g), None);
    g.pop(&b);
    assert_eq!(group_bounds(&a, &g), Some((1, 1)));
}

#[test]
fn hover_listener_notifies_on_change_in_capture() {
    let l = paint_hover_listener((0, 0), false);
    assert!(l.should_notify(DispatchPhase::Capture, true));
    assert!(!l.should_notify(DispatchPhase::Capture, false));
    assert!(!l.should_notify(DispatchPhase::Bubble, true));
}

#[test]
fn hover_listeners_for_group_and_element() {
    let mut d = div();
    assert!(d.paint_hover_listeners(1u8, true, None, false).is_empty());
    let mut hover = StyleRefinement::new();
    hover.z_index = Some(3);
    d.set_hover_style(None, hover);
    let ls = d.paint_hover_listeners(1u8, true, Some(2u8), false);
    assert_eq!(ls.len(), 2);
    assert_eq!((ls[0].bounds, ls[0].hovered), (2, false));
    assert_eq!((ls[1].bounds, ls[1].hovered), (1, true));
}

#[test]
fn builders_set_base_style() {
    let d = div().id("root".to_string()).group("g".to_string()).z_index(4).overflow_hidden_x().overflow_y_scroll();
    assert_eq!(d.element_id, Some("root".to_string()));
    assert_eq!(d.group, Some("g".to_string()));
    assert_eq!(
        d.base_style,
        StyleRefinement { z_index: Some(4), overflow_x: Some(Overflow::Hidden), overflow_y: Some(Overflow::Scroll) }
    );
    let d = d.overflow_scroll();
    assert_eq!(d.base_style.overflow_x, Some(Overflow::Scroll));
    let d = d.overflow_hidden();
    assert_eq!(d.base_style.overflow_y, Some(Overflow::Hidden));
    let d = d.overflow_x_scroll().overflow_hidden_y();
    assert_eq!((d.base_style.overflow_x, d.base_style.overflow_y), (Some(Overflow::Scroll), Some(Overflow::Hidden)));
}

#[test]
fn style_refinements_apply_in_order() {
    let mut d = div().z_index(1);
    assert!(!d.hover_style.is_some());
    let plain = d.compute_style(true, true, ActiveState { group: true, element: true });
    assert_eq!(plain, Style { z_index: Some(1), overflow_x: Overflow::Visible, overflow_y: Overflow::Visible });

    let refinement = |z: u32, x: Option<Overflow>| StyleRefinement { z_index: Some(z), overflow_x: x, overflow_y: None };
    d.set_hover_style(Some("g".to_string()), refinement(2, Some(Overflow::Hidden)));
    d.set_hover_style(None, refinement(3, None));
    d.set_active_style(Some("g".to_string()), refinement(4, None));
    d.set_active_style(None, refinement(5, Some(Overflow::Scroll)));
    assert_eq!(d.group_hover.as_ref().unwrap().group, "g");

    let idle = ActiveState::default();
    assert_eq!(d.compute_style(false, false, idle).z_index, Some(1));
    let s = d.compute_style(true, false, idle);
    assert_eq!((s.z_index, s.overflow_x), (Some(2), Overflow::Hidden));
    let s = d.compute_style(true, true, idle);
    assert_eq!((s.z_index, s.overflow_x), (Some(3), Overflow::Hidden));
    let s = d.compute_style(false, true, ActiveState { group: true, element: false });
    assert_eq!((s.z_index, s.overflow_x), (Some(4), Overflow::Visible));
    let s = d.compute_style(true, true, ActiveState { group: true, element: true });
    assert_eq!(s, Style { z_index: Some(5), overflow_x: Overflow::Scroll, overflow_y: Overflow::Visible });
}

#[test]
fn refine_overrides_only_what_is_set() {
    let mut s = Style::new();
    s.refine(&StyleRefinement { z_index: None, overflow_x: None, overflow_y: Some(Overflow::Hidden) });
    assert_eq!(s, Style { z_index: None, overflow_x: Overflow::Visible, overflow_y: Overflow::Hidden });
    s.refine(&StyleRefinement::new());
    assert_eq!(s.overflow_y, Overflow::Hidden);
}

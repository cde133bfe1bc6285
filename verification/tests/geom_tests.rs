use webgl_paint::geom::choose_flavor;
use webgl_paint::geom::needs_reallocation;
use webgl_paint::geom::ContextFlavor;
use webgl_paint::geom::Size;

#[test]
fn reallocation_is_needed_exactly_when_a_dimension_grows() {
    let current = Size::new(64, 48);
    assert!(!needs_reallocation(current, Size::new(64, 48)));
    assert!(!needs_reallocation(current, Size::new(1, 1)));
    assert!(!needs_reallocation(current, Size::new(64, 1)));
    assert!(needs_reallocation(current, Size::new(65, 48)));
    assert!(needs_reallocation(current, Size::new(64, 49)));
    assert!(needs_reallocation(current, Size::new(1, 49)));
}

#[test]
fn flavor_follows_the_software_preference_flag() {
    assert_eq!(choose_flavor(true), ContextFlavor::Software);
    assert_eq!(choose_flavor(false), ContextFlavor::Hardware);
}

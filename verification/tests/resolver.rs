use mmk::config::Config;
use mmk::props::PropertyValue;
use mmk::resolver::{
    class_matches, fulfils, name_matches, resolve, ResolveError, SelectionCriteria, WindowProps,
};

fn absent() -> PropertyValue {
    PropertyValue { format: 0, type_: 0, value: vec![] }
}

fn window(id: u32, class: &[u8], pid: u32, net_name: &[u8], name: &[u8]) -> WindowProps {
    WindowProps {
        id,
        class: PropertyValue { format: 8, type_: 31, value: class.to_vec() },
        pid,
        net_name: net_name.to_vec(),
        name: name.to_vec(),
    }
}

fn criteria() -> SelectionCriteria {
    SelectionCriteria { wid: None, class: None, pid: None, name: None }
}

fn by_name(name: &str) -> SelectionCriteria {
    SelectionCriteria { name: Some(name.to_string()), ..criteria() }
}

#[test]
fn one_window_named_editor_is_the_target() {
    let windows = vec![
        window(7, b"a\0A\0", 1, b"", b"Terminal"),
        window(42, b"e\0E\0", 2, b"", b"Editor"),
        window(9, b"b\0B\0", 3, b"", b"Browser"),
    ];
    let set = resolve(&by_name("Editor"), false, &windows).unwrap();
    assert_eq!(set.to_vec(), vec![42]);
    assert_eq!(set.len(), 1);
    assert_eq!(set.first(), 42);
    assert_eq!(set.get(0), Some(42));
    assert_eq!(set.get(1), None);
}

#[test]
fn no_matching_window_is_a_failure() {
    let windows = vec![window(7, b"a\0A\0", 1, b"", b"Terminal")];
    assert_eq!(resolve(&by_name("Editor"), false, &windows).unwrap_err(), ResolveError::NoMatch);
    assert_eq!(resolve(&by_name("Editor"), true, &vec![]).unwrap_err(), ResolveError::NoMatch);
}

#[test]
fn no_criterion_at_all_matches_nothing() {
    let windows = vec![window(7, b"a\0A\0", 0, b"", b"")];
    assert_eq!(resolve(&criteria(), true, &windows).unwrap_err(), ResolveError::NoMatch);
}

#[test]
fn all_matches_are_kept_in_tree_order() {
    let windows = vec![
        window(30, b"", 0, b"Editor", b""),
        window(10, b"", 0, b"", b"Other"),
        window(20, b"", 0, b"", b"Editor"),
        window(5, b"", 0, b"Editor", b"Editor"),
    ];
    let set = resolve(&by_name("Editor"), true, &windows).unwrap();
    assert_eq!(set.to_vec(), vec![30, 20, 5]);
}

#[test]
fn only_the_first_match_is_kept_without_all() {
    let windows = vec![
        window(30, b"", 0, b"Editor", b""),
        window(20, b"", 0, b"", b"Editor"),
    ];
    let set = resolve(&by_name("Editor"), false, &windows).unwrap();
    assert_eq!(set.to_vec(), vec![30]);
}

#[test]
fn explicit_id_comes_first_and_is_not_looked_up() {
    let c = SelectionCriteria { wid: Some(1000), ..by_name("Editor") };
    let windows = vec![window(42, b"", 0, b"", b"Editor")];
    assert_eq!(resolve(&c, true, &windows).unwrap().to_vec(), vec![1000, 42]);
    assert_eq!(resolve(&c, false, &windows).unwrap().to_vec(), vec![1000]);
    let only_id = SelectionCriteria { wid: Some(1000), ..criteria() };
    assert_eq!(resolve(&only_id, true, &windows).unwrap().to_vec(), vec![1000]);
    assert_eq!(resolve(&only_id, false, &vec![]).unwrap().to_vec(), vec![1000]);
}

#[test]
fn a_window_is_listed_once() {
    let c = SelectionCriteria { wid: Some(42), ..by_name("Editor") };
    let windows = vec![
        window(42, b"", 0, b"", b"Editor"),
        window(8, b"", 0, b"", b"Editor"),
        window(42, b"", 0, b"Editor", b""),
    ];
    assert_eq!(resolve(&c, true, &windows).unwrap().to_vec(), vec![42, 8]);
}

#[test]
fn every_given_criterion_must_hold() {
    let c = SelectionCriteria {
        wid: None,
        class: Some("XTerm.xterm".to_string()),
        pid: Some(77),
        name: Some("shell".to_string()),
    };
    let windows = vec![
        window(1, b"xterm\0XTerm\0", 77, b"", b"shell"),
        window(2, b"xterm\0XTerm\0", 78, b"", b"shell"),
        window(3, b"xterm\0XTerm\0", 77, b"", b"other"),
        window(4, b"urxvt\0URxvt\0", 77, b"", b"shell"),
        window(5, b"xterm\0XTerm\0", 77, b"shell", b"other"),
    ];
    assert_eq!(resolve(&c, true, &windows).unwrap().to_vec(), vec![1, 5]);
}

#[test]
fn pid_criterion_compares_exactly() {
    let c = SelectionCriteria { pid: Some(0), ..criteria() };
    let windows = vec![window(1, b"", 0, b"", b""), window(2, b"", 1, b"", b"")];
    assert_eq!(resolve(&c, true, &windows).unwrap().to_vec(), vec![1]);
}

#[test]
fn window_without_class_property_is_skipped() {
    let c = SelectionCriteria { class: Some("A.a".to_string()), ..criteria() };
    let mut plain = window(1, b"", 0, b"", b"");
    plain.class = absent();
    let windows = vec![plain, window(2, b"a\0A\0", 0, b"", b"")];
    assert_eq!(resolve(&c, true, &windows).unwrap().to_vec(), vec![2]);
}

#[test]
fn undecodable_name_fails_the_resolution() {
    let windows = vec![
        window(1, b"", 0, b"", b"Editor"),
        window(2, b"", 0, b"\xff", b"Editor"),
        window(3, b"", 0, b"", b"\xff"),
    ];
    assert_eq!(
        resolve(&by_name("Editor"), true, &windows).unwrap_err(),
        ResolveError::Undecodable { window: 2 }
    );
}

#[test]
fn undecodable_class_fails_even_where_the_name_differs() {
    let c = SelectionCriteria { class: Some("A.a".to_string()), ..by_name("Editor") };
    let windows = vec![window(6, b"a\0\xff\0", 0, b"", b"Other")];
    assert_eq!(resolve(&c, true, &windows).unwrap_err(), ResolveError::Undecodable { window: 6 });
}

#[test]
fn property_that_no_criterion_reads_may_hold_anything() {
    let windows = vec![window(6, b"a\0\xff\0", 0, b"", b"Editor")];
    assert_eq!(resolve(&by_name("Editor"), true, &windows).unwrap().to_vec(), vec![6]);
    let c = SelectionCriteria { pid: Some(0), ..criteria() };
    let windows = vec![window(6, b"a\0\xff\0", 0, b"\xff", b"\xff")];
    assert_eq!(resolve(&c, true, &windows).unwrap().to_vec(), vec![6]);
}

#[test]
fn resolution_is_the_same_on_every_run() {
    let c = SelectionCriteria { wid: Some(3), ..by_name("x") };
    let windows: Vec<WindowProps> =
        (0..50u32).map(|i| window(i % 17, b"", 0, b"", if i % 3 == 0 { b"x" } else { b"y" })).collect();
    let first = resolve(&c, true, &windows).unwrap().to_vec();
    for _ in 0..5 {
        assert_eq!(resolve(&c, true, &windows).unwrap().to_vec(), first);
    }
    assert_eq!(first, vec![3, 0, 6, 9, 12, 15, 1, 4, 7, 10, 13, 16, 2, 5, 8, 11, 14]);
    assert_eq!(resolve(&c, true, &windows).unwrap().clone().to_vec(), first);
}

#[test]
fn matching_functions_agree_with_resolve() {
    let target = "Editor".to_string();
    assert_eq!(name_matches(&target, &b"Editor".to_vec(), &b"".to_vec()), Ok(true));
    assert_eq!(name_matches(&target, &b"".to_vec(), &b"Editor".to_vec()), Ok(true));
    assert_eq!(name_matches(&target, &b"editor".to_vec(), &b"".to_vec()), Ok(false));
    assert!(name_matches(&target, &b"Editor".to_vec(), &b"\xc0".to_vec()).is_err());
    let class = "XTerm.xterm".to_string();
    let prop = PropertyValue { format: 8, type_: 31, value: b"xterm\0XTerm\0".to_vec() };
    assert_eq!(class_matches(&class, &prop), Ok(true));
    assert_eq!(class_matches(&"xterm.XTerm".to_string(), &prop), Ok(false));
    assert_eq!(class_matches(&class, &absent()), Ok(false));
    let w = window(1, b"xterm\0XTerm\0", 5, b"", b"Editor");
    assert_eq!(fulfils(&by_name("Editor"), &w), Ok(true));
    assert_eq!(fulfils(&criteria(), &w), Ok(false));
}

#[test]
fn window_props_are_read_off_the_replies() {
    let class = PropertyValue { format: 8, type_: 31, value: b"a\0A\0".to_vec() };
    let pid = PropertyValue { format: 32, type_: 6, value: 321u32.to_ne_bytes().to_vec() };
    let net_name = PropertyValue { format: 8, type_: 31, value: b"net".to_vec() };
    let name = PropertyValue { format: 8, type_: 31, value: b"legacy".to_vec() };
    let w = WindowProps::read(11, class, &pid, net_name, name);
    assert_eq!(w.id, 11);
    assert_eq!(w.class.value, b"a\0A\0".to_vec());
    assert_eq!(w.pid, 321);
    assert_eq!(w.net_name, b"net".to_vec());
    assert_eq!(w.name, b"legacy".to_vec());
}

#[test]
fn criteria_come_from_the_configuration() {
    let cfg = Config::default().with_wid(4).with_name("n".to_string()).with_layout(2);
    let c = cfg.criteria();
    assert_eq!(c.wid, Some(4));
    assert_eq!(c.class, None);
    assert_eq!(c.pid, None);
    assert_eq!(c.name, Some("n".to_string()));
}

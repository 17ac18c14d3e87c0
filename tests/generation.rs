use relm_attributes::{decimal_string, gen, gen_widget_name, last_segment, Event, NameRegistry, Widget};

fn s(x: &str) -> String {
    x.to_string()
}

fn leaf(name: &str) -> Widget {
    Widget {
        name: s(name),
        init_parameters: vec![],
        properties: vec![],
        events: vec![],
        children: vec![],
    }
}

#[test]
fn names_count_per_lowercased_last_segment() {
    let mut registry = NameRegistry::new();
    assert_eq!(gen_widget_name("gtk::Button", &mut registry), "button1");
    assert_eq!(gen_widget_name("gtk::Button", &mut registry), "button2");
    assert_eq!(gen_widget_name("gtk::Label", &mut registry), "label1");
    assert_eq!(gen_widget_name("Button", &mut registry), "button3");
    assert_eq!(gen_widget_name("other::BUTTON", &mut registry), "button4");
    assert_eq!(gen_widget_name("Label", &mut registry), "label2");
}

#[test]
fn name_without_path_is_lowercased_whole() {
    let mut registry = NameRegistry::new();
    assert_eq!(gen_widget_name("Window", &mut registry), "window1");
    assert_eq!(gen_widget_name("", &mut registry), "1");
    assert_eq!(gen_widget_name("a::", &mut registry), "2");
}

#[test]
fn separate_registries_count_separately() {
    let mut first = NameRegistry::new();
    let mut second = NameRegistry::new();
    assert_eq!(gen_widget_name("gtk::Entry", &mut first), "entry1");
    assert_eq!(gen_widget_name("gtk::Entry", &mut first), "entry2");
    assert_eq!(gen_widget_name("gtk::Entry", &mut second), "entry1");
}

#[test]
fn last_segment_of_paths() {
    assert_eq!(last_segment("gtk::Button"), "Button");
    assert_eq!(last_segment("a::b::Cc"), "Cc");
    assert_eq!(last_segment("Label"), "Label");
    assert_eq!(last_segment("x:"), "");
    assert_eq!(last_segment(""), "");
}

#[test]
fn decimal_forms() {
    assert_eq!(decimal_string(0), "0");
    assert_eq!(decimal_string(7), "7");
    assert_eq!(decimal_string(10), "10");
    assert_eq!(decimal_string(1234), "1234");
    assert_eq!(decimal_string(u32::MAX), "4294967295");
}

#[test]
fn room_shrinks_with_the_largest_counter() {
    let mut registry = NameRegistry::new();
    assert_eq!(registry.room(), u32::MAX);
    gen_widget_name("gtk::Button", &mut registry);
    gen_widget_name("gtk::Button", &mut registry);
    gen_widget_name("gtk::Label", &mut registry);
    assert_eq!(registry.room(), u32::MAX - 2);
}

#[test]
fn size_up_to_counts_the_tree() {
    let mut root = leaf("gtk::Box");
    let mut inner = leaf("gtk::Box");
    inner.children.push(leaf("gtk::Label"));
    inner.children.push(leaf("gtk::Label"));
    root.children.push(inner);
    root.children.push(leaf("gtk::Button"));
    assert_eq!(root.size_up_to(100), 5);
    assert_eq!(root.size_up_to(5), 5);
    assert_eq!(root.size_up_to(3), 3);
    assert_eq!(root.size_up_to(0), 0);
}

#[test]
fn single_widget() {
    let mut registry = NameRegistry::new();
    let mut root = None;
    let mut label = leaf("gtk::Label");
    label.init_parameters.push(s("Some(\"hi\")"));
    let tokens = gen(&s("Widgets"), label, &mut root, &mut registry);
    assert_eq!(
        tokens.as_str(),
        "let label1 = gtk::Label :: new ( Some(\"hi\") , ) ; label1 . show_all ( ) ; Widgets { label1 : label1 }"
    );
    assert_eq!(root, Some(s("label1")));
}

#[test]
fn window_with_button() {
    let mut registry = NameRegistry::new();
    let mut root = None;
    let mut window = leaf("gtk::Window");
    window.init_parameters.push(s("gtk::WindowType::Toplevel"));
    window.events.push((s("delete_event"), Event { name: s("Quit"), params: vec![s("_"), s("_")] }));
    let mut button = leaf("gtk::Button");
    button.properties.push((s("label"), s("\"+\"")));
    button.events.push((s("clicked"), Event { name: s("Increment"), params: vec![] }));
    window.children.push(button);
    let tokens = gen(&s("Widgets"), window, &mut root, &mut registry);
    let expected = [
        "let window1 = gtk::Window :: new ( gtk::WindowType::Toplevel , ) ;",
        "connect ! ( relm , window1 , connect_delete_event ( _ , _ ) { ( Some ( Quit ) , :: gtk :: Inhibit ( false ) ) } ) ;",
        "let button1 = gtk::Button :: new ( ) ;",
        "button1 . set_label ( \"+\" ) ;",
        "connect ! ( relm , button1 , connect_clicked ( ) { ( Some ( Increment ) , ( ) ) } ) ;",
        "window1 . add ( & button1 ) ;",
        "window1 . show_all ( ) ;",
        "Widgets { window1 : window1 , button1 : button1 }",
    ]
    .join(" ");
    assert_eq!(tokens.as_str(), expected);
    assert_eq!(root, Some(s("window1")));
}

#[test]
fn delete_event_outside_a_window_returns_unit() {
    let mut registry = NameRegistry::new();
    let mut root = None;
    let mut dialog = leaf("gtk::Dialog");
    dialog.events.push((s("delete_event"), Event { name: s("Close"), params: vec![s("a")] }));
    let tokens = gen(&s("W"), dialog, &mut root, &mut registry);
    assert_eq!(
        tokens.as_str(),
        "let dialog1 = gtk::Dialog :: new ( ) ; connect ! ( relm , dialog1 , connect_delete_event ( a ) { ( Some ( Close ) , ( ) ) } ) ; dialog1 . show_all ( ) ; W { dialog1 : dialog1 }"
    );
}

#[test]
fn nested_children_are_named_in_preorder() {
    let mut registry = NameRegistry::new();
    let mut root = None;
    let mut outer = leaf("gtk::Box");
    let mut inner = leaf("gtk::Box");
    inner.children.push(leaf("gtk::Label"));
    outer.children.push(inner);
    outer.children.push(leaf("gtk::Label"));
    let tokens = gen(&s("W"), outer, &mut root, &mut registry);
    let expected = [
        "let box1 = gtk::Box :: new ( ) ;",
        "let box2 = gtk::Box :: new ( ) ;",
        "let label1 = gtk::Label :: new ( ) ;",
        "box2 . add ( & label1 ) ;",
        "box1 . add ( & box2 ) ;",
        "let label2 = gtk::Label :: new ( ) ;",
        "box1 . add ( & label2 ) ;",
        "box1 . show_all ( ) ;",
        "W { box1 : box1 , box2 : box2 , label1 : label1 , label2 : label2 }",
    ]
    .join(" ");
    assert_eq!(tokens.as_str(), expected);
    assert_eq!(root, Some(s("box1")));
}

#[test]
fn registry_carries_over_between_trees() {
    let mut registry = NameRegistry::new();
    let mut root = None;
    let first = gen(&s("A"), leaf("gtk::Button"), &mut root, &mut registry);
    assert_eq!(first.as_str(), "let button1 = gtk::Button :: new ( ) ; button1 . show_all ( ) ; A { button1 : button1 }");
    let second = gen(&s("B"), leaf("gtk::Button"), &mut root, &mut registry);
    assert_eq!(second.as_str(), "let button2 = gtk::Button :: new ( ) ; button2 . show_all ( ) ; B { button2 : button2 }");
    assert_eq!(root, Some(s("button2")));
}

#[test]
fn empty_strings_add_no_space() {
    let mut registry = NameRegistry::new();
    let mut root = None;
    let mut w = leaf("gtk::Label");
    w.init_parameters.push(s(""));
    let tokens = gen(&s(""), w, &mut root, &mut registry);
    assert_eq!(tokens.as_str(), "let label1 = gtk::Label :: new ( , ) ; label1 . show_all ( ) ; { label1 : label1 }");
}

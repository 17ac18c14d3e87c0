//! The walk over a widget tree that writes the code building it.
use vstd::prelude::*;

use quote::Tokens;

use crate::names::{bumped, count_of, gen_widget_name, has_room, name_key, next_name, NameRegistry};
use crate::tokens::{append_token, appended, new_tokens, tokens_text};
use crate::widget::{Event, Widget};

verus! {

/// What the walk has produced so far: the code text, the widget names in the
/// order they were minted, and the name counters.
pub struct GenState {
    pub text: Seq<char>,
    pub names: Seq<Seq<char>>,
    pub counts: Map<Seq<char>, u32>,
}

/// A walk state from its parts.
pub open spec fn gen_state(
    text: Seq<char>,
    names: Seq<Seq<char>>,
    counts: Map<Seq<char>, u32>,
) -> GenState {
    GenState { text, names, counts }
}

/// The texts of a list of strings.
pub open spec fn texts_of(v: Seq<String>) -> Seq<Seq<char>> {
    v.map_values(|s: String| s@)
}

/// The name of a widget's parent, if it has one.
pub open spec fn parent_text(parent: Option<&String>) -> Option<Seq<char>> {
    match parent {
        Some(p) => Some(p@),
        None => None,
    }
}

/// `let <name> = <path> :: new (`
pub open spec fn head_text(t: Seq<char>, name: Seq<char>, path: Seq<char>) -> Seq<char> {
    let t = appended(t, "let"@);
    let t = appended(t, name);
    let t = appended(t, "="@);
    let t = appended(t, path);
    let t = appended(t, "::"@);
    let t = appended(t, "new"@);
    appended(t, "("@)
}

/// The first `i` constructor arguments, each followed by `,`.
pub open spec fn params_text(t: Seq<char>, params: Seq<String>, i: int) -> Seq<char>
    decreases i,
{
    if i <= 0 {
        t
    } else {
        appended(appended(params_text(t, params, i - 1), params[i - 1]@), ","@)
    }
}

/// `<name> . set_<key> ( <value> ) ;`
pub open spec fn property_text(t: Seq<char>, name: Seq<char>, key: Seq<char>, value: Seq<char>) -> Seq<char> {
    let t = appended(t, name);
    let t = appended(t, "."@);
    let t = appended(t, "set_"@ + key);
    let t = appended(t, "("@);
    let t = appended(t, value);
    let t = appended(t, ")"@);
    appended(t, ";"@)
}

/// The setter calls of the first `i` properties.
pub open spec fn properties_text(t: Seq<char>, name: Seq<char>, props: Seq<(String, String)>, i: int) -> Seq<char>
    decreases i,
{
    if i <= 0 {
        t
    } else {
        property_text(properties_text(t, name, props, i - 1), name, props[i - 1].0@, props[i - 1].1@)
    }
}

/// The first `i` handler arguments, separated by `,`.
pub open spec fn args_text(t: Seq<char>, args: Seq<String>, i: int) -> Seq<char>
    decreases i,
{
    if i <= 0 {
        t
    } else if i == 1 {
        appended(t, args[0]@)
    } else {
        appended(appended(args_text(t, args, i - 1), ","@), args[i - 1]@)
    }
}

/// Whether an event is a window's `delete_event`, whose handler must tell the
/// toolkit whether to stop the window from closing.
pub open spec fn is_window_delete(path: Seq<char>, event: Seq<char>) -> bool {
    path == "gtk::Window"@ && event == "delete_event"@
}

/// What a handler returns: `:: gtk :: Inhibit ( false )` for a window's
/// `delete_event`, else `( )`.
pub open spec fn result_text(t: Seq<char>, window_delete: bool) -> Seq<char> {
    if window_delete {
        let t = appended(t, "::"@);
        let t = appended(t, "gtk"@);
        let t = appended(t, "::"@);
        let t = appended(t, "Inhibit"@);
        let t = appended(t, "("@);
        let t = appended(t, "false"@);
        appended(t, ")"@)
    } else {
        appended(appended(t, "("@), ")"@)
    }
}

/// `connect ! ( relm , <name> , connect_<event> ( <args> ) { ( Some ( <message> ) , <result> ) } ) ;`
pub open spec fn event_text(t: Seq<char>, path: Seq<char>, name: Seq<char>, event: Seq<char>, handler: Event) -> Seq<char> {
    let t = appended(t, "connect"@);
    let t = appended(t, "!"@);
    let t = appended(t, "("@);
    let t = appended(t, "relm"@);
    let t = appended(t, ","@);
    let t = appended(t, name);
    let t = appended(t, ","@);
    let t = appended(t, "connect_"@ + event);
    let t = appended(t, "("@);
    let t = args_text(t, handler.params@, handler.params@.len() as int);
    let t = appended(t, ")"@);
    let t = appended(t, "{"@);
    let t = appended(t, "("@);
    let t = appended(t, "Some"@);
    let t = appended(t, "("@);
    let t = appended(t, handler.name@);
    let t = appended(t, ")"@);
    let t = appended(t, ","@);
    let t = result_text(t, is_window_delete(path, event));
    let t = appended(t, ")"@);
    let t = appended(t, "}"@);
    let t = appended(t, ")"@);
    appended(t, ";"@)
}

/// The connections of the first `i` events.
pub open spec fn events_text(t: Seq<char>, path: Seq<char>, name: Seq<char>, events: Seq<(String, Event)>, i: int) -> Seq<char>
    decreases i,
{
    if i <= 0 {
        t
    } else {
        event_text(events_text(t, path, name, events, i - 1), path, name, events[i - 1].0@, events[i - 1].1)
    }
}

/// `<parent> . add ( & <name> ) ;` under a parent, `<name> . show_all ( ) ;` at the top.
pub open spec fn attach_text(t: Seq<char>, parent: Option<Seq<char>>, name: Seq<char>) -> Seq<char> {
    match parent {
        Some(p) => {
            let t = appended(t, p);
            let t = appended(t, "."@);
            let t = appended(t, "add"@);
            let t = appended(t, "("@);
            let t = appended(t, "&"@);
            let t = appended(t, name);
            let t = appended(t, ")"@);
            appended(t, ";"@)
        },
        None => {
            let t = appended(t, name);
            let t = appended(t, "."@);
            let t = appended(t, "show_all"@);
            let t = appended(t, "("@);
            let t = appended(t, ")"@);
            appended(t, ";"@)
        },
    }
}

/// The walk over one widget: its name is minted first, then its constructor,
/// setters and connections are written, then its children in order, then the
/// line that attaches it to its parent or shows it.
pub open spec fn widget_gen(w: Widget, parent: Option<Seq<char>>, s: GenState) -> GenState
    decreases w, w.children@.len() + 1,
{
    let key = name_key(w.name@);
    let name = next_name(s.counts, key);
    let t = head_text(s.text, name, w.name@);
    let t = params_text(t, w.init_parameters@, w.init_parameters@.len() as int);
    let t = appended(appended(t, ")"@), ";"@);
    let t = properties_text(t, name, w.properties@, w.properties@.len() as int);
    let t = events_text(t, w.name@, name, w.events@, w.events@.len() as int);
    let kids = children_gen(w, name, w.children@.len() as int, gen_state(t, s.names.push(name), bumped(s.counts, key)));
    gen_state(attach_text(kids.text, parent, name), kids.names, kids.counts)
}

/// The walk over the first `i` children of `w`, whose name is `name`.
pub open spec fn children_gen(w: Widget, name: Seq<char>, i: int, s: GenState) -> GenState
    decreases w, i,
{
    if i <= 0 || i > w.children@.len() {
        s
    } else {
        widget_gen(w.children@[i - 1], Some(name), children_gen(w, name, i - 1, s))
    }
}

/// `<name> : <name>`
pub open spec fn field_text(t: Seq<char>, name: Seq<char>) -> Seq<char> {
    appended(appended(appended(t, name), ":"@), name)
}

/// The first `i` fields of the container, separated by `,`.
pub open spec fn fields_text(t: Seq<char>, names: Seq<Seq<char>>, i: int) -> Seq<char>
    decreases i,
{
    if i <= 0 {
        t
    } else if i == 1 {
        field_text(t, names[0])
    } else {
        field_text(appended(fields_text(t, names, i - 1), ","@), names[i - 1])
    }
}

/// `<container> { <name> : <name> , ... }`
pub open spec fn container_text(t: Seq<char>, container: Seq<char>, names: Seq<Seq<char>>) -> Seq<char> {
    let t = appended(appended(t, container), "{"@);
    appended(fields_text(t, names, names.len() as int), "}"@)
}

/// The code that builds a widget tree, and the counters after it: the tree's
/// code, then the container value with one field per widget.
pub open spec fn gen_result(container: Seq<char>, w: Widget, counts: Map<Seq<char>, u32>) -> GenState {
    let s = widget_gen(w, None, gen_state(Seq::empty(), Seq::empty(), counts));
    gen_state(container_text(s.text, container, s.names), s.names, s.counts)
}

fn emit_head(out: &mut Tokens, name: &str, path: &str)
    ensures
        tokens_text(*final(out)) == head_text(tokens_text(*old(out)), name@, path@),
{
    append_token(out, "let");
    append_token(out, name);
    append_token(out, "=");
    append_token(out, path);
    append_token(out, "::");
    append_token(out, "new");
    append_token(out, "(");
}

fn emit_params(out: &mut Tokens, params: &Vec<String>)
    ensures
        tokens_text(*final(out)) == params_text(tokens_text(*old(out)), params@, params@.len() as int),
{
    let ghost t0 = tokens_text(*out);
    let mut i: usize = 0;
    while i < params.len()
        invariant
            i <= params@.len(),
            tokens_text(*out) == params_text(t0, params@, i as int),
        decreases params@.len() - i,
    {
        append_token(out, params[i].as_str());
        append_token(out, ",");
        i = i + 1;
    }
}

/// `prefix` followed by `s`.
fn prefixed(prefix: &str, s: &String) -> (r: String)
    ensures
        r@ == prefix@ + s@,
{
    let mut r = String::from_str(prefix);
    r.append(s.as_str());
    r
}

fn emit_properties(out: &mut Tokens, name: &String, props: &Vec<(String, String)>)
    ensures
        tokens_text(*final(out)) == properties_text(tokens_text(*old(out)), name@, props@, props@.len() as int),
{
    let ghost t0 = tokens_text(*out);
    let mut i: usize = 0;
    while i < props.len()
        invariant
            i <= props@.len(),
            tokens_text(*out) == properties_text(t0, name@, props@, i as int),
        decreases props@.len() - i,
    {
        let setter = prefixed("set_", &props[i].0);
        append_token(out, name.as_str());
        append_token(out, ".");
        append_token(out, setter.as_str());
        append_token(out, "(");
        append_token(out, props[i].1.as_str());
        append_token(out, ")");
        append_token(out, ";");
        i = i + 1;
    }
}

fn emit_args(out: &mut Tokens, args: &Vec<String>)
    ensures
        tokens_text(*final(out)) == args_text(tokens_text(*old(out)), args@, args@.len() as int),
{
    let ghost t0 = tokens_text(*out);
    let mut i: usize = 0;
    while i < args.len()
        invariant
            i <= args@.len(),
            tokens_text(*out) == args_text(t0, args@, i as int),
        decreases args@.len() - i,
    {
        if i > 0 {
            append_token(out, ",");
        }
        append_token(out, args[i].as_str());
        i = i + 1;
    }
}

fn emit_result(out: &mut Tokens, window_delete: bool)
    ensures
        tokens_text(*final(out)) == result_text(tokens_text(*old(out)), window_delete),
{
    if window_delete {
        append_token(out, "::");
        append_token(out, "gtk");
        append_token(out, "::");
        append_token(out, "Inhibit");
        append_token(out, "(");
        append_token(out, "false");
        append_token(out, ")");
    } else {
        append_token(out, "(");
        append_token(out, ")");
    }
}

fn emit_event(out: &mut Tokens, path: &String, name: &String, event: &String, handler: &Event)
    ensures
        tokens_text(*final(out)) == event_text(tokens_text(*old(out)), path@, name@, event@, *handler),
{
    let window_delete = *path == String::from_str("gtk::Window") && *event == String::from_str("delete_event");
    let connector = prefixed("connect_", event);
    append_token(out, "connect");
    append_token(out, "!");
    append_token(out, "(");
    append_token(out, "relm");
    append_token(out, ",");
    append_token(out, name.as_str());
    append_token(out, ",");
    append_token(out, connector.as_str());
    append_token(out, "(");
    emit_args(out, &handler.params);
    append_token(out, ")");
    append_token(out, "{");
    append_token(out, "(");
    append_token(out, "Some");
    append_token(out, "(");
    append_token(out, handler.name.as_str());
    append_token(out, ")");
    append_token(out, ",");
    emit_result(out, window_delete);
    append_token(out, ")");
    append_token(out, "}");
    append_token(out, ")");
    append_token(out, ";");
}

fn emit_events(out: &mut Tokens, path: &String, name: &String, events: &Vec<(String, Event)>)
    ensures
        tokens_text(*final(out)) == events_text(tokens_text(*old(out)), path@, name@, events@, events@.len() as int),
{
    let ghost t0 = tokens_text(*out);
    let mut i: usize = 0;
    while i < events.len()
        invariant
            i <= events@.len(),
            tokens_text(*out) == events_text(t0, path@, name@, events@, i as int),
        decreases events@.len() - i,
    {
        emit_event(out, path, name, &events[i].0, &events[i].1);
        i = i + 1;
    }
}

fn emit_attach(out: &mut Tokens, parent: Option<&String>, name: &String)
    ensures
        tokens_text(*final(out)) == attach_text(tokens_text(*old(out)), parent_text(parent), name@),
{
    match parent {
        Some(p) => {
            append_token(out, p.as_str());
            append_token(out, ".");
            append_token(out, "add");
            append_token(out, "(");
            append_token(out, "&");
            append_token(out, name.as_str());
            append_token(out, ")");
            append_token(out, ";");
        },
        None => {
            append_token(out, name.as_str());
            append_token(out, ".");
            append_token(out, "show_all");
            append_token(out, "(");
            append_token(out, ")");
            append_token(out, ";");
        },
    }
}

/// Writes the code for `widget` and its subtree, minting the names in preorder
/// and recording each in `widget_names`; a widget without a parent is the
/// root, and its name goes to `root_widget`.
fn gen_widget(
    widget: &Widget,
    parent: Option<&String>,
    widget_names: &mut Vec<String>,
    root_widget: &mut Option<String>,
    registry: &mut NameRegistry,
    out: &mut Tokens,
)
    requires
        old(registry).wf(),
        has_room(old(registry)@, widget.size()),
    ensures
        final(registry).wf(),
        widget_gen(*widget, parent_text(parent), gen_state(tokens_text(*old(out)), texts_of(old(widget_names)@), old(registry)@))
            == gen_state(tokens_text(*final(out)), texts_of(final(widget_names)@), final(registry)@),
        forall|k: Seq<char>| #[trigger] count_of(final(registry)@, k) <= count_of(old(registry)@, k) + widget.size(),
        parent is None ==> *final(root_widget) is Some
            && final(root_widget)->0@ == next_name(old(registry)@, name_key(widget.name@)),
        parent is Some ==> *final(root_widget) == *old(root_widget),
    decreases widget,
{
    let ghost counts0 = registry@;
    let ghost key = name_key(widget.name@);
    assert forall|k: Seq<char>| #[trigger] count_of(registry@, k) + 1 <= u32::MAX by {
        assert(count_of(registry@, k) + widget.size() <= u32::MAX);
    }
    let widget_name = gen_widget_name(widget.name.as_str(), registry);
    let ghost counts1 = registry@;
    let ghost names0 = widget_names@;
    widget_names.push(widget_name.clone());
    assert(texts_of(widget_names@) =~= texts_of(names0).push(widget_name@));

    emit_head(out, widget_name.as_str(), widget.name.as_str());
    emit_params(out, &widget.init_parameters);
    append_token(out, ")");
    append_token(out, ";");
    emit_properties(out, &widget_name, &widget.properties);
    emit_events(out, &widget.name, &widget_name, &widget.events);

    let ghost s0 = gen_state(tokens_text(*out), texts_of(widget_names@), counts1);
    let len = widget.children.len();
    assert forall|k: Seq<char>| #[trigger] count_of(counts1, k) + widget.children_size(len as int) <= u32::MAX by {
        assert(count_of(counts0, k) + widget.size() <= u32::MAX);
    }
    let mut i: usize = 0;
    while i < len
        invariant
            len == widget.children@.len(),
            i <= len,
            registry.wf(),
            gen_state(tokens_text(*out), texts_of(widget_names@), registry@)
                == children_gen(*widget, widget_name@, i as int, s0),
            forall|k: Seq<char>| #[trigger] count_of(registry@, k) <= count_of(counts1, k) + widget.children_size(i as int),
            forall|k: Seq<char>| #[trigger] count_of(counts1, k) + widget.children_size(len as int) <= u32::MAX,
            *root_widget == *old(root_widget),
        decreases len - i,
    {
        let ghost before = registry@;
        proof {
            widget.lemma_children_size_grows(i as int + 1, len as int);
        }
        assert forall|k: Seq<char>| #[trigger] count_of(registry@, k) + widget.children@[i as int].size() <= u32::MAX by {
            assert(count_of(counts1, k) + widget.children_size(len as int) <= u32::MAX);
            assert(count_of(registry@, k) <= count_of(counts1, k) + widget.children_size(i as int));
        }
        gen_widget(&widget.children[i], Some(&widget_name), widget_names, root_widget, registry, out);
        assert forall|k: Seq<char>| #[trigger] count_of(registry@, k) <= count_of(counts1, k) + widget.children_size(i as int + 1) by {
            assert(count_of(registry@, k) <= count_of(before, k) + widget.children@[i as int].size());
            assert(count_of(before, k) <= count_of(counts1, k) + widget.children_size(i as int));
        }
        i = i + 1;
    }

    match parent {
        Some(_) => {},
        None => {
            *root_widget = Some(widget_name.clone());
        },
    }
    emit_attach(out, parent, &widget_name);
    assert forall|k: Seq<char>| #[trigger] count_of(registry@, k) <= count_of(counts0, k) + widget.size() by {
        assert(count_of(registry@, k) <= count_of(counts1, k) + widget.children_size(len as int));
        assert(count_of(counts1, k) <= count_of(counts0, k) + 1);
    }
}

fn emit_fields(out: &mut Tokens, names: &Vec<String>)
    ensures
        tokens_text(*final(out)) == fields_text(tokens_text(*old(out)), texts_of(names@), names@.len() as int),
{
    let ghost t0 = tokens_text(*out);
    let mut i: usize = 0;
    while i < names.len()
        invariant
            i <= names@.len(),
            tokens_text(*out) == fields_text(t0, texts_of(names@), i as int),
        decreases names@.len() - i,
    {
        if i > 0 {
            append_token(out, ",");
        }
        append_token(out, names[i].as_str());
        append_token(out, ":");
        append_token(out, names[i].as_str());
        i = i + 1;
    }
}

/// Generates the code that builds the widget tree `widget` and then the value
/// of the container `name`, whose fields are the widgets under their minted
/// names. The top widget's name is stored in `root_widget`.
pub fn gen(name: &String, widget: Widget, root_widget: &mut Option<String>, registry: &mut NameRegistry) -> (r: Tokens)
    requires
        old(registry).wf(),
        has_room(old(registry)@, widget.size()),
    ensures
        final(registry).wf(),
        tokens_text(r) == gen_result(name@, widget, old(registry)@).text,
        final(registry)@ == gen_result(name@, widget, old(registry)@).counts,
        *final(root_widget) is Some,
        final(root_widget)->0@ == next_name(old(registry)@, name_key(widget.name@)),
{
    let mut widget_names: Vec<String> = Vec::new();
    let mut out = new_tokens();
    assert(texts_of(widget_names@) =~= Seq::<Seq<char>>::empty());
    gen_widget(&widget, None, &mut widget_names, root_widget, registry, &mut out);
    append_token(&mut out, name.as_str());
    append_token(&mut out, "{");
    emit_fields(&mut out, &widget_names);
    append_token(&mut out, "}");
    out
}

} // verus!

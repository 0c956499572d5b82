use vstd::prelude::*;
use crate::geometry::{Event, Geometry, absolute, clamp_i32, clamp_to_i32, spec_absolute};
use crate::layout::{Dimension, Edges, LayoutContext, Style};
use crate::render::{
    Color,
    Primitive,
    RenderContext,
    RenderQueue,
    ShapeRequest,
    Shape,
    TextArea,
    kept_after,
    lemma_kept_after_concat,
    lemma_kept_after_empty,
    PRIMITIVE_CAPACITY,
};

verus! {

/// A vertical stack of children.
pub struct Column {
    pub children: Vec<Widget>,
    node_id: Option<usize>,
}

/// A text label; its shaped form is rebuilt only when its content changes.
pub struct Text {
    pub text: String,
    pub font_size: u32,
    node_id: Option<usize>,
    last_text: Option<String>,
}

/// A clickable button with a text label. A click inside it reports the
/// button's action handle.
pub struct Button {
    pub text: String,
    pub on_click: usize,
    text_view: Text,
    node_id: Option<usize>,
    hovered: bool,
    pressed: bool,
}

pub struct Rect {
    pub color: Color,
    node_id: Option<usize>,
}

pub struct Circle {
    pub color: Color,
    node_id: Option<usize>,
}

pub struct RoundedRect {
    pub color: Color,
    pub radius: u32,
    node_id: Option<usize>,
}

/// A node of the widget tree.
///
/// No widget reacts to the init, mount, update or unmount stages of its
/// life, so the tree carries no lifecycle hooks: a composite would only
/// pass them on to children that ignore them.
pub enum Widget {
    Column(Column),
    Text(Text),
    Button(Button),
    Rect(Rect),
    Circle(Circle),
    RoundedRect(RoundedRect),
}

impl Column {
    pub closed spec fn node(&self) -> Option<usize> {
        self.node_id
    }

    pub closed spec fn kids(&self) -> Seq<Widget> {
        self.children@
    }

    pub fn new(children: Vec<Widget>) -> (c: Column)
        ensures
            c.kids() == children@,
            c.node() is None,
    {
        Column { children, node_id: None }
    }
}

impl Text {
    pub closed spec fn node(&self) -> Option<usize> {
        self.node_id
    }

    pub closed spec fn content(&self) -> String {
        self.text
    }

    pub closed spec fn size(&self) -> u32 {
        self.font_size
    }

    /// The content the text was last shaped with, if it was.
    pub closed spec fn shaped(&self) -> Option<String> {
        self.last_text
    }

    pub fn new(text: String) -> (t: Text)
        ensures
            t.content() == text,
            t.size() == 16,
            t.node() is None,
            t.shaped() is None,
    {
        Text { text, font_size: 16, node_id: None, last_text: None }
    }

    /// Replaces the content; the text is reshaped at the next prepare if the
    /// new content differs from the shaped one.
    pub fn set_text(&mut self, text: String)
        ensures
            final(self).content() == text,
            final(self).size() == old(self).size(),
            final(self).node() == old(self).node(),
            final(self).shaped() == old(self).shaped(),
    {
        self.text = text;
    }
}

impl Button {
    pub closed spec fn node(&self) -> Option<usize> {
        self.node_id
    }

    pub closed spec fn caption(&self) -> String {
        self.text
    }

    pub closed spec fn action(&self) -> usize {
        self.on_click
    }

    pub closed spec fn label(&self) -> Text {
        self.text_view
    }

    pub closed spec fn is_hovered(&self) -> bool {
        self.hovered
    }

    pub closed spec fn is_pressed(&self) -> bool {
        self.pressed
    }

    pub fn new(text: String, on_click: usize) -> (b: Button)
        ensures
            b.caption() == text,
            b.action() == on_click,
            b.label().content() == text,
            b.label().size() == 14,
            b.label().node() is None,
            b.label().shaped() is None,
            b.node() is None,
            !b.is_hovered(),
            !b.is_pressed(),
    {
        let label = text.clone();
        Button {
            text,
            on_click,
            text_view: Text { text: label, font_size: 14, node_id: None, last_text: None },
            node_id: None,
            hovered: false,
            pressed: false,
        }
    }

    pub fn hovered(&self) -> (r: bool)
        ensures
            r == self.is_hovered(),
    {
        self.hovered
    }

    pub fn pressed(&self) -> (r: bool)
        ensures
            r == self.is_pressed(),
    {
        self.pressed
    }
}

impl Rect {
    pub closed spec fn node(&self) -> Option<usize> {
        self.node_id
    }

    pub closed spec fn paint(&self) -> Color {
        self.color
    }

    pub fn new(color: Color) -> (r: Rect)
        ensures
            r.paint() == color,
            r.node() is None,
    {
        Rect { color, node_id: None }
    }
}

impl Circle {
    pub closed spec fn node(&self) -> Option<usize> {
        self.node_id
    }

    pub closed spec fn paint(&self) -> Color {
        self.color
    }

    pub fn new(color: Color) -> (c: Circle)
        ensures
            c.paint() == color,
            c.node() is None,
    {
        Circle { color, node_id: None }
    }
}

impl RoundedRect {
    pub closed spec fn node(&self) -> Option<usize> {
        self.node_id
    }

    pub closed spec fn paint(&self) -> Color {
        self.color
    }

    pub closed spec fn corner(&self) -> u32 {
        self.radius
    }

    pub fn new(color: Color, radius: u32) -> (r: RoundedRect)
        ensures
            r.paint() == color,
            r.corner() == radius,
            r.node() is None,
    {
        RoundedRect { color, radius, node_id: None }
    }
}

#[allow(non_snake_case)]
pub fn Text(text: String) -> (t: Text)
    ensures
        t.content() == text,
        t.size() == 16,
        t.node() is None,
        t.shaped() is None,
{
    Text::new(text)
}

#[allow(non_snake_case)]
pub fn Button(text: String, on_click: usize) -> (b: Button)
    ensures
        b.caption() == text,
        b.action() == on_click,
        b.label().content() == text,
        b.label().size() == 14,
        b.label().node() is None,
        b.label().shaped() is None,
        b.node() is None,
        !b.is_hovered(),
        !b.is_pressed(),
{
    Button::new(text, on_click)
}

#[allow(non_snake_case)]
pub fn Rect(color: Color) -> (r: Rect)
    ensures
        r.paint() == color,
        r.node() is None,
{
    Rect::new(color)
}

#[allow(non_snake_case)]
pub fn Circle(color: Color) -> (c: Circle)
    ensures
        c.paint() == color,
        c.node() is None,
{
    Circle::new(color)
}

#[allow(non_snake_case)]
pub fn RoundedRect(color: Color, radius: u32) -> (r: RoundedRect)
    ensures
        r.paint() == color,
        r.corner() == radius,
        r.node() is None,
{
    RoundedRect::new(color, radius)
}

// ---------------------------------------------------------------------------
// The model of the tree: geometry, primitives and shape requests.

pub open spec fn handle_of(w: Widget) -> Option<usize> {
    match w {
        Widget::Column(c) => c.node(),
        Widget::Text(t) => t.node(),
        Widget::Button(b) => b.node(),
        Widget::Rect(r) => r.node(),
        Widget::Circle(c) => c.node(),
        Widget::RoundedRect(r) => r.node(),
    }
}

/// Every node of the tree, a button's label included, holds a handle of
/// `layout`.
pub open spec fn laid_out(w: Widget, layout: LayoutContext) -> bool
    decreases w,
{
    &&& handle_of(w) is Some
    &&& handle_of(w)->0 < layout.len()
    &&& match w {
        Widget::Column(c) => forall|i: int|
            0 <= i < c.kids().len() ==> laid_out(#[trigger] c.kids()[i], layout),
        Widget::Button(b) => b.label().node() is Some && b.label().node()->0 < layout.len(),
        _ => true,
    }
}

/// The absolute geometry of the box of handle `h`: the parent's origin plus
/// the box's placement.
pub open spec fn geometry_at(h: Option<usize>, layout: LayoutContext, parent: Geometry) -> Geometry {
    spec_absolute(parent, layout.placement_of(h->0 as int))
}

pub open spec fn column_outline() -> Color {
    Color { r: 255, g: 0, b: 0, a: 255 }
}

pub open spec fn text_outline() -> Color {
    Color { r: 0, g: 255, b: 0, a: 255 }
}

pub open spec fn button_outline() -> Color {
    Color { r: 255, g: 255, b: 0, a: 255 }
}

/// A button's background: pressed over hovered over idle.
pub open spec fn button_fill(pressed: bool, hovered: bool) -> Color {
    if pressed {
        Color { r: 48, g: 63, b: 159, a: 255 }
    } else if hovered {
        Color { r: 77, g: 97, b: 199, a: 255 }
    } else {
        Color { r: 63, g: 81, b: 181, a: 255 }
    }
}

/// Corner radius of a button's background.
pub open spec fn button_radius() -> u32 {
    8
}

pub open spec fn rect_prim(g: Geometry, color: Color) -> Primitive {
    Primitive { geometry: g, color, radius: 0, shape: Shape::Rect }
}

/// Four one-pixel bars along the edges of `g`: top, bottom, left, right.
pub open spec fn outline(g: Geometry, color: Color) -> Seq<Primitive> {
    seq![
        rect_prim(Geometry { height: 1, ..g }, color),
        rect_prim(Geometry { y: clamp_i32(g.y + g.height - 1) as i32, height: 1, ..g }, color),
        rect_prim(Geometry { width: 1, ..g }, color),
        rect_prim(Geometry { x: clamp_i32(g.x + g.width - 1) as i32, width: 1, ..g }, color),
    ]
}

pub open spec fn outline_if(debug: bool, g: Geometry, color: Color) -> Seq<Primitive> {
    if debug {
        outline(g, color)
    } else {
        Seq::empty()
    }
}

/// What a text's prepare pushes.
pub open spec fn text_prims(t: Text, layout: LayoutContext, parent: Geometry, debug: bool) -> Seq<
    Primitive,
> {
    outline_if(debug, geometry_at(t.node(), layout, parent), text_outline())
}

/// The primitives the prepare pass pushes for `w`, in push order.
pub open spec fn prims_of(w: Widget, layout: LayoutContext, parent: Geometry, debug: bool) -> Seq<
    Primitive,
>
    decreases w, 0int,
{
    let g = geometry_at(handle_of(w), layout, parent);
    match w {
        Widget::Column(c) => prims_of_children(c.kids(), c.kids().len() as int, layout, g, debug)
            + outline_if(debug, g, column_outline()),
        Widget::Text(t) => text_prims(t, layout, parent, debug),
        Widget::Button(b) => seq![
            Primitive {
                geometry: g,
                color: button_fill(b.is_pressed(), b.is_hovered()),
                radius: button_radius(),
                shape: Shape::RoundedRect,
            },
        ] + text_prims(b.label(), layout, g, debug) + outline_if(debug, g, button_outline()),
        Widget::Rect(r) => seq![rect_prim(g, r.paint())],
        Widget::Circle(c) => seq![
            Primitive { geometry: g, color: c.paint(), radius: 0, shape: Shape::Circle },
        ],
        Widget::RoundedRect(r) => seq![
            Primitive { geometry: g, color: r.paint(), radius: r.corner(), shape: Shape::RoundedRect },
        ],
    }
}

/// The primitives of the first `n` children, in order.
pub open spec fn prims_of_children(
    s: Seq<Widget>,
    n: int,
    layout: LayoutContext,
    parent: Geometry,
    debug: bool,
) -> Seq<Primitive>
    decreases s, n,
{
    if n <= 0 || n > s.len() {
        Seq::empty()
    } else {
        prims_of_children(s, n - 1, layout, parent, debug) + prims_of(s[n - 1], layout, parent, debug)
    }
}

/// The text's shaped form is missing or was built from other content.
pub open spec fn needs_shape(t: Text) -> bool {
    match t.shaped() {
        Some(s) => s@ != t.content()@,
        None => true,
    }
}

pub open spec fn text_requests(t: Text, layout: LayoutContext, parent: Geometry) -> Seq<
    ShapeRequest,
> {
    let g = geometry_at(t.node(), layout, parent);
    if needs_shape(t) {
        seq![
            ShapeRequest {
                handle: t.node()->0,
                text: t.content(),
                font_size: t.size(),
                width: g.width,
                height: g.height,
            },
        ]
    } else {
        Seq::empty()
    }
}

/// The shape requests the prepare pass makes for `w`, in order.
pub open spec fn requests_of(w: Widget, layout: LayoutContext, parent: Geometry) -> Seq<
    ShapeRequest,
>
    decreases w, 0int,
{
    let g = geometry_at(handle_of(w), layout, parent);
    match w {
        Widget::Column(c) => requests_of_children(c.kids(), c.kids().len() as int, layout, g),
        Widget::Text(t) => text_requests(t, layout, parent),
        Widget::Button(b) => text_requests(b.label(), layout, g),
        _ => Seq::empty(),
    }
}

pub open spec fn requests_of_children(
    s: Seq<Widget>,
    n: int,
    layout: LayoutContext,
    parent: Geometry,
) -> Seq<ShapeRequest>
    decreases s, n,
{
    if n <= 0 || n > s.len() {
        Seq::empty()
    } else {
        requests_of_children(s, n - 1, layout, parent) + requests_of(s[n - 1], layout, parent)
    }
}

/// `new` is `old` after prepare: same content and handle, shaped with its
/// current content.
pub open spec fn text_prepared(old: Text, new: Text) -> bool {
    &&& new.node() == old.node()
    &&& new.content() == old.content()
    &&& new.size() == old.size()
    &&& new.shaped() == if needs_shape(old) {
        Some(old.content())
    } else {
        old.shaped()
    }
}

/// `new` is `old` after the prepare pass: every text is shaped with its
/// current content, and nothing else changed.
pub open spec fn prepared(old: Widget, new: Widget) -> bool
    decreases old,
{
    match (old, new) {
        (Widget::Column(a), Widget::Column(b)) => {
            &&& b.node() == a.node()
            &&& b.kids().len() == a.kids().len()
            &&& forall|i: int| 0 <= i < a.kids().len() ==> prepared(#[trigger] a.kids()[i], b.kids()[i])
        },
        (Widget::Text(a), Widget::Text(b)) => text_prepared(a, b),
        (Widget::Button(a), Widget::Button(b)) => {
            &&& b.node() == a.node()
            &&& b.caption() == a.caption()
            &&& b.action() == a.action()
            &&& b.is_hovered() == a.is_hovered()
            &&& b.is_pressed() == a.is_pressed()
            &&& text_prepared(a.label(), b.label())
        },
        _ => new == old,
    }
}

// ---------------------------------------------------------------------------
// The model of event routing and text collection.

/// A move sets the hover state to whether the pointer is inside.
pub open spec fn next_hovered(hovered: bool, ev: Event, g: Geometry) -> bool {
    match ev {
        Event::MouseMove { x, y } => g.spec_contains(x as int, y as int),
        _ => hovered,
    }
}

/// A press inside sets the pressed state; a release anywhere clears it.
pub open spec fn next_pressed(pressed: bool, ev: Event, g: Geometry) -> bool {
    match ev {
        Event::MouseDown { x, y } => pressed || g.spec_contains(x as int, y as int),
        Event::MouseUp { .. } => false,
        _ => pressed,
    }
}

/// A click inside reports the button's action once, whatever its state.
pub open spec fn button_clicks(b: Button, ev: Event, g: Geometry) -> Seq<usize> {
    match ev {
        Event::MouseClick { x, y } => if g.spec_contains(x as int, y as int) {
            seq![b.action()]
        } else {
            Seq::empty()
        },
        _ => Seq::empty(),
    }
}

/// `new` is the button `old` after `ev`.
pub open spec fn button_evented(old: Button, new: Button, ev: Event, g: Geometry) -> bool {
    &&& new.node() == old.node()
    &&& new.caption() == old.caption()
    &&& new.action() == old.action()
    &&& new.label() == old.label()
    &&& new.is_hovered() == next_hovered(old.is_hovered(), ev, g)
    &&& new.is_pressed() == next_pressed(old.is_pressed(), ev, g)
}

/// The actions that `ev` triggers in the tree `w`, in depth-first order:
/// every node receives the event, none stops it.
pub open spec fn clicks_of(w: Widget, ev: Event, layout: LayoutContext, parent: Geometry) -> Seq<
    usize,
>
    decreases w, 0int,
{
    let g = geometry_at(handle_of(w), layout, parent);
    match w {
        Widget::Column(c) => clicks_of_children(c.kids(), c.kids().len() as int, ev, layout, g),
        Widget::Button(b) => button_clicks(b, ev, g),
        _ => Seq::empty(),
    }
}

pub open spec fn clicks_of_children(
    s: Seq<Widget>,
    n: int,
    ev: Event,
    layout: LayoutContext,
    parent: Geometry,
) -> Seq<usize>
    decreases s, n,
{
    if n <= 0 || n > s.len() {
        Seq::empty()
    } else {
        clicks_of_children(s, n - 1, ev, layout, parent) + clicks_of(s[n - 1], ev, layout, parent)
    }
}

/// `new` is the tree `old` after `ev` reached all of its nodes.
pub open spec fn evented(old: Widget, new: Widget, ev: Event, layout: LayoutContext, parent: Geometry) -> bool
    decreases old,
{
    let g = geometry_at(handle_of(old), layout, parent);
    match (old, new) {
        (Widget::Column(a), Widget::Column(b)) => {
            &&& b.node() == a.node()
            &&& b.kids().len() == a.kids().len()
            &&& forall|i: int|
                0 <= i < a.kids().len() ==> evented(#[trigger] a.kids()[i], b.kids()[i], ev, layout, g)
        },
        (Widget::Button(a), Widget::Button(b)) => button_evented(a, b, ev, g),
        (Widget::Column(_), _) => false,
        (Widget::Button(_), _) => false,
        _ => new == old,
    }
}

/// Where a shaped text is drawn: its absolute box.
pub open spec fn text_areas(t: Text, layout: LayoutContext, parent: Geometry) -> Seq<TextArea> {
    let g = geometry_at(t.node(), layout, parent);
    if t.shaped() is Some {
        seq![
            TextArea {
                handle: t.node()->0,
                left: g.x,
                top: g.y,
                right: clamp_i32(g.x + g.width) as i32,
                bottom: clamp_i32(g.y + g.height) as i32,
            },
        ]
    } else {
        Seq::empty()
    }
}

/// The text areas of the shaped texts of `w`, in depth-first order.
pub open spec fn areas_of(w: Widget, layout: LayoutContext, parent: Geometry) -> Seq<TextArea>
    decreases w, 0int,
{
    let g = geometry_at(handle_of(w), layout, parent);
    match w {
        Widget::Column(c) => areas_of_children(c.kids(), c.kids().len() as int, layout, g),
        Widget::Text(t) => text_areas(t, layout, parent),
        Widget::Button(b) => text_areas(b.label(), layout, g),
        _ => Seq::empty(),
    }
}

pub open spec fn areas_of_children(
    s: Seq<Widget>,
    n: int,
    layout: LayoutContext,
    parent: Geometry,
) -> Seq<TextArea>
    decreases s, n,
{
    if n <= 0 || n > s.len() {
        Seq::empty()
    } else {
        areas_of_children(s, n - 1, layout, parent) + areas_of(s[n - 1], layout, parent)
    }
}

// ---------------------------------------------------------------------------
// The model of the layout pass.

/// A column: children top to bottom, centred across, packed at the top,
/// filling its parent, with padding and a gap between children.
pub open spec fn column_style() -> Style {
    Style {
        vertical: true,
        center_items: true,
        center_content: false,
        width: Dimension::Full,
        height: Dimension::Full,
        padding: Edges { left: 16, right: 16, top: 24, bottom: 24 },
        gap: 16,
    }
}

/// A button: its label centred both ways, with padding around it.
pub open spec fn button_style() -> Style {
    Style {
        vertical: false,
        center_items: true,
        center_content: true,
        width: Dimension::Auto,
        height: Dimension::Auto,
        padding: Edges { left: 24, right: 24, top: 10, bottom: 10 },
        gap: 0,
    }
}

/// The fixed style descriptor each kind of node registers.
pub open spec fn style_for(w: Widget) -> Style {
    match w {
        Widget::Column(_) => column_style(),
        Widget::Text(_) => Style::spec_plain(),
        Widget::Button(_) => button_style(),
        Widget::Rect(_) => Style::spec_fixed(100, 100),
        Widget::Circle(_) => Style::spec_fixed(50, 50),
        Widget::RoundedRect(_) => Style::spec_fixed(100, 50),
    }
}

pub open spec fn child_handles(s: Seq<Widget>) -> Seq<usize> {
    Seq::new(s.len(), |i: int| handle_of(s[i])->0)
}

/// Each node of `w` is registered in `layout` under its handle, with its
/// kind's style and its children's handles in order. Children are
/// registered before their parent, in declaration order: their handles are
/// below the parent's and increase along the children.
pub open spec fn registered(w: Widget, layout: LayoutContext) -> bool
    decreases w,
{
    let h = handle_of(w)->0 as int;
    &&& layout.style_of(h) == style_for(w)
    &&& match w {
        Widget::Column(c) => {
            &&& layout.children_of(h) == child_handles(c.kids())
            &&& forall|i: int|
                0 <= i < c.kids().len() ==> #[trigger] child_handles(c.kids())[i] < h
            &&& forall|i: int, j: int|
                0 <= i < j < c.kids().len() ==> #[trigger] child_handles(c.kids())[i]
                    < #[trigger] child_handles(c.kids())[j]
            &&& forall|i: int| 0 <= i < c.kids().len() ==> registered(#[trigger] c.kids()[i], layout)
        },
        Widget::Button(b) => {
            let t = b.label().node()->0 as int;
            &&& t < h
            &&& layout.children_of(h) == seq![t as usize]
            &&& layout.style_of(t) == Style::spec_plain()
            &&& layout.children_of(t) == Seq::<usize>::empty()
        },
        _ => layout.children_of(h) == Seq::<usize>::empty(),
    }
}

/// `new` is `old` with nothing changed but the layout handles.
pub open spec fn relaid(old: Widget, new: Widget) -> bool
    decreases old,
{
    match (old, new) {
        (Widget::Column(a), Widget::Column(b)) => {
            &&& b.kids().len() == a.kids().len()
            &&& forall|i: int| 0 <= i < a.kids().len() ==> relaid(#[trigger] a.kids()[i], b.kids()[i])
        },
        (Widget::Text(a), Widget::Text(b)) => {
            &&& b.content() == a.content()
            &&& b.size() == a.size()
            &&& b.shaped() == a.shaped()
        },
        (Widget::Button(a), Widget::Button(b)) => {
            &&& b.caption() == a.caption()
            &&& b.action() == a.action()
            &&& b.is_hovered() == a.is_hovered()
            &&& b.is_pressed() == a.is_pressed()
            &&& b.label().content() == a.label().content()
            &&& b.label().size() == a.label().size()
            &&& b.label().shaped() == a.label().shaped()
        },
        (Widget::Rect(a), Widget::Rect(b)) => b.paint() == a.paint(),
        (Widget::Circle(a), Widget::Circle(b)) => b.paint() == a.paint(),
        (Widget::RoundedRect(a), Widget::RoundedRect(b)) => b.paint() == a.paint() && b.corner()
            == a.corner(),
        _ => false,
    }
}

/// Registering more boxes keeps a tree laid out and registered.
pub proof fn lemma_layout_grows(w: Widget, a: LayoutContext, b: LayoutContext)
    requires
        laid_out(w, a),
        registered(w, a),
        b.extends(&a),
    ensures
        laid_out(w, b),
        registered(w, b),
    decreases w,
{
    let h = handle_of(w)->0 as int;
    assert(b.style_of(h) == a.style_of(h));
    match w {
        Widget::Column(c) => {
            assert forall|i: int| 0 <= i < c.kids().len() implies laid_out(
                #[trigger] c.kids()[i],
                b,
            ) && registered(c.kids()[i], b) by {
                lemma_layout_grows(c.kids()[i], a, b);
            }
        },
        Widget::Button(bt) => {
            let t = bt.label().node()->0 as int;
            assert(b.style_of(t) == a.style_of(t));
        },
        _ => {},
    }
}

/// Each child of a column is smaller than the column's node.
pub proof fn lemma_children_decrease(w: Widget, c: Column)
    requires
        w == Widget::Column(c),
    ensures
        forall|j: int| 0 <= j < c.kids().len() ==> decreases_to!(w => #[trigger] c.kids()[j]),
{
    match w {
        Widget::Column(c1) => {
            assert(decreases_to!(w => c1));
            assert(decreases_to!(c1 => c1.children));
            assert forall|j: int| 0 <= j < c.kids().len() implies decreases_to!(
                w => #[trigger] c.kids()[j]
            ) by {
                vstd::std_specs::vec::axiom_vec_index_decreases(c1.children, j);
            }
        },
        _ => {},
    }
}

// ---------------------------------------------------------------------------
// The prepare pass.

/// Pushes the outline of `g`: four one-pixel bars.
pub fn render_outline_helper(queue: &mut RenderQueue, g: Geometry, color: Color)
    requires
        old(queue).wf(),
    ensures
        final(queue).wf(),
        final(queue).primitives() == kept_after(old(queue).primitives(), outline(g, color)),
{
    let ghost q0 = queue.primitives();
    let bottom = clamp_to_i32(g.y as i64 + g.height as i64 - 1);
    let right = clamp_to_i32(g.x as i64 + g.width as i64 - 1);
    let ghost o = outline(g, color);
    queue.push_rect(Geometry { height: 1, ..g }, color);
    queue.push_rect(Geometry { y: bottom, height: 1, ..g }, color);
    queue.push_rect(Geometry { width: 1, ..g }, color);
    queue.push_rect(Geometry { x: right, width: 1, ..g }, color);
    proof {
        lemma_kept_after_concat(q0, seq![o[0]], seq![o[1]]);
        assert(seq![o[0]] + seq![o[1]] =~= o.take(2));
        lemma_kept_after_concat(q0, o.take(2), seq![o[2]]);
        assert(o.take(2) + seq![o[2]] =~= o.take(3));
        lemma_kept_after_concat(q0, o.take(3), seq![o[3]]);
        assert(o.take(3) + seq![o[3]] =~= o);
    }
}

fn render_outline_if(queue: &mut RenderQueue, debug: bool, g: Geometry, color: Color)
    requires
        old(queue).wf(),
    ensures
        final(queue).wf(),
        final(queue).primitives() == kept_after(
            old(queue).primitives(),
            outline_if(debug, g, color),
        ),
{
    if debug {
        render_outline_helper(queue, g, color);
    } else {
        proof {
            lemma_kept_after_empty(queue.primitives());
        }
    }
}

impl Text {
    /// Shapes the text again if its content changed since it was last
    /// shaped (a request is made for it), then draws its outline in debug
    /// mode.
    pub fn prepare(&mut self, ctx: &mut RenderContext, layout: &LayoutContext, parent: Geometry)
        requires
            old(self).node() is Some,
            old(self).node()->0 < layout.len(),
            old(ctx).render_queue.wf(),
        ensures
            text_prepared(*old(self), *final(self)),
            final(ctx).debug == old(ctx).debug,
            final(ctx).render_queue.wf(),
            final(ctx).render_queue.primitives() == kept_after(
                old(ctx).render_queue.primitives(),
                text_prims(*old(self), *layout, parent, old(ctx).debug),
            ),
            final(ctx).shape_requests@ == old(ctx).shape_requests@ + text_requests(
                *old(self),
                *layout,
                parent,
            ),
    {
        let h = self.node_id.unwrap();
        let g = absolute(parent, layout.placement(h));
        let stale = match &self.last_text {
            Some(t) => !(*t == self.text),
            None => true,
        };
        let ghost r0 = ctx.shape_requests@;
        if stale {
            ctx.shape_requests.push(
                ShapeRequest {
                    handle: h,
                    text: self.text.clone(),
                    font_size: self.font_size,
                    width: g.width,
                    height: g.height,
                },
            );
            self.last_text = Some(self.text.clone());
        } else {
            assert(ctx.shape_requests@ =~= r0 + Seq::<ShapeRequest>::empty());
        }
        render_outline_if(&mut ctx.render_queue, ctx.debug, g, Color { r: 0, g: 255, b: 0, a: 255 });
    }
}

impl Widget {
    /// Resolves the node's absolute geometry, pushes its primitives and,
    /// for a composite, recurses into its children with that geometry as
    /// their parent's; texts whose content changed are queued for shaping.
    pub fn prepare(&mut self, ctx: &mut RenderContext, layout: &LayoutContext, parent: Geometry)
        requires
            laid_out(*old(self), *layout),
            old(ctx).render_queue.wf(),
        ensures
            prepared(*old(self), *final(self)),
            laid_out(*final(self), *layout),
            final(ctx).debug == old(ctx).debug,
            final(ctx).render_queue.wf(),
            final(ctx).render_queue.primitives() == kept_after(
                old(ctx).render_queue.primitives(),
                prims_of(*old(self), *layout, parent, old(ctx).debug),
            ),
            final(ctx).shape_requests@ == old(ctx).shape_requests@ + requests_of(
                *old(self),
                *layout,
                parent,
            ),
        decreases *old(self),
    {
        let ghost s0 = *self;
        let ghost debug = ctx.debug;
        let ghost q0 = ctx.render_queue.primitives();
        let ghost r0 = ctx.shape_requests@;
        match self {
            Widget::Column(c) => {
                let g = absolute(parent, layout.placement(c.node_id.unwrap()));
                let ghost c0 = *c;
                let ghost kids = c.children@;
                proof {
                    lemma_children_decrease(s0, c0);
                }
                assert(laid_out(s0, *layout));
                assert(c0.kids() == kids);
                proof {
                    lemma_kept_after_empty(q0);
                    assert(r0 =~= r0 + Seq::<ShapeRequest>::empty());
                }
                let mut i: usize = 0;
                while i < c.children.len()
                    invariant
                        s0 == *old(self),
                        s0 == Widget::Column(c0),
                        c0.children@ == kids,
                        c.node_id == c0.node_id,
                        i <= kids.len(),
                        c.children@.len() == kids.len(),
                        forall|j: int| 0 <= j < kids.len() ==> decreases_to!(s0 => #[trigger] kids[j]),
                        forall|j: int| 0 <= j < kids.len() ==> laid_out(#[trigger] kids[j], *layout),
                        forall|j: int| i <= j < kids.len() ==> #[trigger] c.children@[j] == kids[j],
                        forall|j: int|
                            0 <= j < i ==> prepared(#[trigger] kids[j], c.children@[j]) && laid_out(
                                c.children@[j],
                                *layout,
                            ),
                        ctx.debug == debug,
                        ctx.render_queue.wf(),
                        q0.len() <= PRIMITIVE_CAPACITY,
                        ctx.render_queue.primitives() == kept_after(
                            q0,
                            prims_of_children(kids, i as int, *layout, g, debug),
                        ),
                        ctx.shape_requests@ == r0 + requests_of_children(kids, i as int, *layout, g),
                    decreases kids.len() - i,
                {
                    let child = &mut c.children[i];
                    child.prepare(ctx, layout, g);
                    proof {
                        lemma_kept_after_concat(
                            q0,
                            prims_of_children(kids, i as int, *layout, g, debug),
                            prims_of(kids[i as int], *layout, g, debug),
                        );
                        assert(r0 + requests_of_children(kids, i as int, *layout, g) + requests_of(
                            kids[i as int],
                            *layout,
                            g,
                        ) =~= r0 + requests_of_children(kids, i + 1, *layout, g));
                    }
                    i = i + 1;
                }
                assert forall|j: int| 0 <= j < c.kids().len() implies laid_out(
                    #[trigger] c.kids()[j],
                    *layout,
                ) && prepared(c0.kids()[j], c.kids()[j]) by {
                    assert(prepared(kids[j], c.children@[j]));
                }
                render_outline_if(
                    &mut ctx.render_queue,
                    ctx.debug,
                    g,
                    Color { r: 255, g: 0, b: 0, a: 255 },
                );
                proof {
                    lemma_kept_after_concat(
                        q0,
                        prims_of_children(kids, i as int, *layout, g, debug),
                        outline_if(debug, g, column_outline()),
                    );
                }
            },
            Widget::Text(t) => {
                t.prepare(ctx, layout, parent);
            },
            Widget::Button(b) => {
                let g = absolute(parent, layout.placement(b.node_id.unwrap()));
                let color = if b.pressed {
                    Color { r: 48, g: 63, b: 159, a: 255 }
                } else if b.hovered {
                    Color { r: 77, g: 97, b: 199, a: 255 }
                } else {
                    Color { r: 63, g: 81, b: 181, a: 255 }
                };
                let ghost first = ctx.render_queue.primitives();
                ctx.render_queue.push_rounded_rect(g, color, 8);
                let ghost second = ctx.render_queue.primitives();
                b.text_view.prepare(ctx, layout, g);
                let ghost third = ctx.render_queue.primitives();
                render_outline_if(
                    &mut ctx.render_queue,
                    ctx.debug,
                    g,
                    Color { r: 255, g: 255, b: 0, a: 255 },
                );
                proof {
                    let a = seq![
                        Primitive {
                            geometry: g,
                            color,
                            radius: 8,
                            shape: Shape::RoundedRect,
                        },
                    ];
                    let t = text_prims(s0->Button_0.label(), *layout, g, debug);
                    let o = outline_if(debug, g, button_outline());
                    lemma_kept_after_concat(q0, a, t);
                    lemma_kept_after_concat(q0, a + t, o);
                    assert(ctx.shape_requests@ =~= r0 + requests_of(s0, *layout, parent));
                }
            },
            Widget::Rect(r) => {
                let g = absolute(parent, layout.placement(r.node_id.unwrap()));
                ctx.render_queue.push_rect(g, r.color);
                assert(ctx.shape_requests@ =~= r0 + Seq::<ShapeRequest>::empty());
            },
            Widget::Circle(c) => {
                let g = absolute(parent, layout.placement(c.node_id.unwrap()));
                ctx.render_queue.push_circle(g, c.color);
                assert(ctx.shape_requests@ =~= r0 + Seq::<ShapeRequest>::empty());
            },
            Widget::RoundedRect(r) => {
                let g = absolute(parent, layout.placement(r.node_id.unwrap()));
                ctx.render_queue.push_rounded_rect(g, r.color, r.radius);
                assert(ctx.shape_requests@ =~= r0 + Seq::<ShapeRequest>::empty());
            },
        }
    }
}


impl Button {
    /// Applies the button's state machine to `ev` and reports a click
    /// inside it.
    pub fn handle_event(
        &mut self,
        ev: &Event,
        layout: &LayoutContext,
        parent: Geometry,
        clicked: &mut Vec<usize>,
    )
        requires
            old(self).node() is Some,
            old(self).node()->0 < layout.len(),
        ensures
            button_evented(*old(self), *final(self), *ev, geometry_at(old(self).node(), *layout, parent)),
            final(clicked)@ == old(clicked)@ + button_clicks(
                *old(self),
                *ev,
                geometry_at(old(self).node(), *layout, parent),
            ),
    {
        let g = absolute(parent, layout.placement(self.node_id.unwrap()));
        let ghost c0 = clicked@;
        match ev {
            Event::MouseClick { x, y } => {
                if g.contains(*x, *y) {
                    clicked.push(self.on_click);
                } else {
                    assert(clicked@ =~= c0 + Seq::<usize>::empty());
                }
            },
            Event::MouseMove { x, y } => {
                self.hovered = g.contains(*x, *y);
                assert(clicked@ =~= c0 + Seq::<usize>::empty());
            },
            Event::MouseDown { x, y } => {
                if g.contains(*x, *y) {
                    self.pressed = true;
                }
                assert(clicked@ =~= c0 + Seq::<usize>::empty());
            },
            Event::MouseUp { .. } => {
                self.pressed = false;
                assert(clicked@ =~= c0 + Seq::<usize>::empty());
            },
        }
    }
}

impl Text {
    /// Emits the text's area if it has been shaped.
    pub fn collect_text_areas(
        &self,
        layout: &LayoutContext,
        parent: Geometry,
        areas: &mut Vec<TextArea>,
    )
        requires
            self.node() is Some,
            self.node()->0 < layout.len(),
        ensures
            final(areas)@ == old(areas)@ + text_areas(*self, *layout, parent),
    {
        let h = self.node_id.unwrap();
        let g = absolute(parent, layout.placement(h));
        if self.last_text.is_some() {
            areas.push(
                TextArea {
                    handle: h,
                    left: g.x,
                    top: g.y,
                    right: clamp_to_i32(g.x as i64 + g.width as i64),
                    bottom: clamp_to_i32(g.y as i64 + g.height as i64),
                },
            );
        } else {
            assert(areas@ =~= old(areas)@ + Seq::<TextArea>::empty());
        }
    }
}

impl Widget {
    /// Routes `ev` depth-first to every node of the tree, each with its own
    /// absolute geometry; a click inside a button reports its action.
    pub fn handle_event(
        &mut self,
        ev: &Event,
        layout: &LayoutContext,
        parent: Geometry,
        clicked: &mut Vec<usize>,
    )
        requires
            laid_out(*old(self), *layout),
        ensures
            evented(*old(self), *final(self), *ev, *layout, parent),
            laid_out(*final(self), *layout),
            final(clicked)@ == old(clicked)@ + clicks_of(*old(self), *ev, *layout, parent),
        decreases *old(self),
    {
        let ghost s0 = *self;
        let ghost k0 = clicked@;
        match self {
            Widget::Column(c) => {
                let g = absolute(parent, layout.placement(c.node_id.unwrap()));
                let ghost c0 = *c;
                let ghost kids = c.children@;
                proof {
                    lemma_children_decrease(s0, c0);
                }
                assert(laid_out(s0, *layout));
                assert(c0.kids() == kids);
                assert(k0 =~= k0 + Seq::<usize>::empty());
                let mut i: usize = 0;
                while i < c.children.len()
                    invariant
                        s0 == *old(self),
                        s0 == Widget::Column(c0),
                        c0.children@ == kids,
                        c.node_id == c0.node_id,
                        i <= kids.len(),
                        c.children@.len() == kids.len(),
                        forall|j: int| 0 <= j < kids.len() ==> decreases_to!(s0 => #[trigger] kids[j]),
                        forall|j: int| 0 <= j < kids.len() ==> laid_out(#[trigger] kids[j], *layout),
                        forall|j: int| i <= j < kids.len() ==> #[trigger] c.children@[j] == kids[j],
                        forall|j: int|
                            0 <= j < i ==> evented(#[trigger] kids[j], c.children@[j], *ev, *layout, g)
                                && laid_out(c.children@[j], *layout),
                        clicked@ == k0 + clicks_of_children(kids, i as int, *ev, *layout, g),
                    decreases kids.len() - i,
                {
                    let child = &mut c.children[i];
                    child.handle_event(ev, layout, g, clicked);
                    proof {
                        assert(k0 + clicks_of_children(kids, i as int, *ev, *layout, g) + clicks_of(
                            kids[i as int],
                            *ev,
                            *layout,
                            g,
                        ) =~= k0 + clicks_of_children(kids, i + 1, *ev, *layout, g));
                    }
                    i = i + 1;
                }
                assert forall|j: int| 0 <= j < c.kids().len() implies laid_out(
                    #[trigger] c.kids()[j],
                    *layout,
                ) && evented(c0.kids()[j], c.kids()[j], *ev, *layout, g) by {
                    assert(evented(kids[j], c.children@[j], *ev, *layout, g));
                }
            },
            Widget::Button(b) => {
                b.handle_event(ev, layout, parent, clicked);
            },
            _ => {
                assert(clicked@ =~= k0 + Seq::<usize>::empty());
            },
        }
    }

    /// Emits the areas of the tree's shaped texts, depth-first, each at its
    /// absolute geometry.
    pub fn collect_text_areas(
        &self,
        layout: &LayoutContext,
        parent: Geometry,
        areas: &mut Vec<TextArea>,
    )
        requires
            laid_out(*self, *layout),
        ensures
            final(areas)@ == old(areas)@ + areas_of(*self, *layout, parent),
        decreases *self,
    {
        let ghost a0 = areas@;
        match self {
            Widget::Column(c) => {
                let g = absolute(parent, layout.placement(c.node_id.unwrap()));
                let ghost kids = c.children@;
                proof {
                    lemma_children_decrease(*self, *c);
                }
                assert(c.kids() == kids);
                assert(a0 =~= a0 + Seq::<TextArea>::empty());
                let mut i: usize = 0;
                while i < c.children.len()
                    invariant
                        *self == Widget::Column(*c),
                        c.children@ == kids,
                        i <= kids.len(),
                        forall|j: int| 0 <= j < kids.len() ==> decreases_to!(*self => #[trigger] kids[j]),
                        forall|j: int| 0 <= j < kids.len() ==> laid_out(#[trigger] kids[j], *layout),
                        areas@ == a0 + areas_of_children(kids, i as int, *layout, g),
                    decreases kids.len() - i,
                {
                    c.children[i].collect_text_areas(layout, g, areas);
                    proof {
                        assert(a0 + areas_of_children(kids, i as int, *layout, g) + areas_of(
                            kids[i as int],
                            *layout,
                            g,
                        ) =~= a0 + areas_of_children(kids, i + 1, *layout, g));
                    }
                    i = i + 1;
                }
            },
            Widget::Text(t) => {
                t.collect_text_areas(layout, parent, areas);
            },
            Widget::Button(b) => {
                let g = absolute(parent, layout.placement(b.node_id.unwrap()));
                b.text_view.collect_text_areas(layout, g, areas);
            },
            _ => {
                assert(areas@ =~= a0 + Seq::<TextArea>::empty());
            },
        }
    }
}


impl Text {
    /// Registers the text as a leaf of the engine's default style.
    pub fn layout(&mut self, ctx: &mut LayoutContext) -> (h: usize)
        ensures
            final(ctx).extends(old(ctx)),
            final(ctx).len() == old(ctx).len() + 1,
            h == old(ctx).len(),
            final(self).node() == Some(h),
            final(self).content() == old(self).content(),
            final(self).size() == old(self).size(),
            final(self).shaped() == old(self).shaped(),
            final(ctx).style_of(h as int) == Style::spec_plain(),
            final(ctx).children_of(h as int) == Seq::<usize>::empty(),
    {
        let h = ctx.register(Style::plain(), Vec::new());
        self.node_id = Some(h);
        h
    }
}

impl Widget {
    /// Registers every node of the tree with the layout engine, children
    /// before their parent, and returns the root's handle.
    pub fn layout(&mut self, ctx: &mut LayoutContext) -> (h: usize)
        ensures
            final(ctx).extends(old(ctx)),
            laid_out(*final(self), *final(ctx)),
            registered(*final(self), *final(ctx)),
            relaid(*old(self), *final(self)),
            handle_of(*final(self)) == Some(h),
            h + 1 == final(ctx).len(),
            old(ctx).len() <= h,
        decreases *old(self),
    {
        let ghost s0 = *self;
        let ghost x0 = *ctx;
        match self {
            Widget::Column(c) => {
                let ghost c0 = *c;
                let ghost kids = c.children@;
                proof {
                    lemma_children_decrease(s0, c0);
                }
                let mut handles: Vec<usize> = Vec::new();
                let mut i: usize = 0;
                while i < c.children.len()
                    invariant
                        s0 == *old(self),
                        s0 == Widget::Column(c0),
                        c0.children@ == kids,
                        i <= kids.len(),
                        c.children@.len() == kids.len(),
                        handles@.len() == i,
                        forall|j: int| 0 <= j < kids.len() ==> decreases_to!(s0 => #[trigger] kids[j]),
                        forall|j: int| i <= j < kids.len() ==> #[trigger] c.children@[j] == kids[j],
                        forall|j: int|
                            0 <= j < i ==> {
                                &&& relaid(#[trigger] kids[j], c.children@[j])
                                &&& laid_out(c.children@[j], *ctx)
                                &&& registered(c.children@[j], *ctx)
                                &&& handle_of(c.children@[j]) == Some(handles@[j])
                            },
                        forall|j: int| 0 <= j < i ==> #[trigger] handles@[j] < ctx.len(),
                        forall|j: int| 0 <= j < i ==> x0.len() <= #[trigger] handles@[j],
                        forall|j: int, k: int|
                            0 <= j < k < i ==> #[trigger] handles@[j] < #[trigger] handles@[k],
                        ctx.extends(&x0),
                    decreases kids.len() - i,
                {
                    let ghost before = *ctx;
                    let ghost prev = c.children@;
                    let child = &mut c.children[i];
                    let h = child.layout(ctx);
                    handles.push(h);
                    proof {
                        assert forall|j: int| 0 <= j < i implies laid_out(c.children@[j], *ctx)
                            && registered(c.children@[j], *ctx) by {
                            assert(relaid(kids[j], prev[j]));
                            assert(prev[j] == c.children@[j]);
                            lemma_layout_grows(c.children@[j], before, *ctx);
                        }
                        assert forall|j: int| 0 <= j <= i implies {
                            &&& relaid(#[trigger] kids[j], c.children@[j])
                            &&& laid_out(c.children@[j], *ctx)
                            &&& registered(c.children@[j], *ctx)
                            &&& handle_of(c.children@[j]) == Some(handles@[j])
                        } by {}
                    }
                    i = i + 1;
                }
                let ghost before = *ctx;
                let ghost handle_seq = handles@;
                let h = ctx.register(Style {
                    vertical: true,
                    center_items: true,
                    center_content: false,
                    width: Dimension::Full,
                    height: Dimension::Full,
                    padding: Edges { left: 16, right: 16, top: 24, bottom: 24 },
                    gap: 16,
                }, handles);
                c.node_id = Some(h);
                proof {
                    assert forall|j: int| 0 <= j < c.kids().len() implies laid_out(
                        #[trigger] c.kids()[j],
                        *ctx,
                    ) && registered(c.kids()[j], *ctx) && relaid(c0.kids()[j], c.kids()[j]) by {
                        assert(relaid(kids[j], c.children@[j]));
                        lemma_layout_grows(c.children@[j], before, *ctx);
                    }
                    assert(child_handles(c.kids()) =~= handle_seq);
                }
                h
            },
            Widget::Text(t) => t.layout(ctx),
            Widget::Button(b) => {
                let th = b.text_view.layout(ctx);
                let mut kids: Vec<usize> = Vec::new();
                kids.push(th);
                let h = ctx.register(Style {
                    vertical: false,
                    center_items: true,
                    center_content: true,
                    width: Dimension::Auto,
                    height: Dimension::Auto,
                    padding: Edges { left: 24, right: 24, top: 10, bottom: 10 },
                    gap: 0,
                }, kids);
                b.node_id = Some(h);
                h
            },
            Widget::Rect(r) => {
                let h = ctx.register(Style::fixed(100, 100), Vec::new());
                r.node_id = Some(h);
                h
            },
            Widget::Circle(c) => {
                let h = ctx.register(Style::fixed(50, 50), Vec::new());
                c.node_id = Some(h);
                h
            },
            Widget::RoundedRect(r) => {
                let h = ctx.register(Style::fixed(100, 50), Vec::new());
                r.node_id = Some(h);
                h
            },
        }
    }
}


impl Widget {
    /// Whether every node of the tree holds a handle of `layout`: the
    /// condition of the prepare, collect and event passes.
    pub fn is_laid_out(&self, layout: &LayoutContext) -> (r: bool)
        ensures
            r == laid_out(*self, *layout),
        decreases *self,
    {
        let n = layout.node_count();
        match self {
            Widget::Column(c) => {
                let own = match c.node_id {
                    Some(h) => h < n,
                    None => false,
                };
                if !own {
                    return false;
                }
                let ghost kids = c.children@;
                proof {
                    lemma_children_decrease(*self, *c);
                }
                assert(c.kids() == kids);
                let mut i: usize = 0;
                while i < c.children.len()
                    invariant
                        *self == Widget::Column(*c),
                        c.children@ == kids,
                        i <= kids.len(),
                        forall|j: int| 0 <= j < kids.len() ==> decreases_to!(*self => #[trigger] kids[j]),
                        forall|j: int| 0 <= j < i ==> laid_out(#[trigger] kids[j], *layout),
                    decreases kids.len() - i,
                {
                    if !c.children[i].is_laid_out(layout) {
                        assert(!laid_out(c.kids()[i as int], *layout));
                        return false;
                    }
                    i = i + 1;
                }
                true
            },
            Widget::Text(t) => match t.node_id {
                Some(h) => h < n,
                None => false,
            },
            Widget::Button(b) => {
                let own = match b.node_id {
                    Some(h) => h < n,
                    None => false,
                };
                let label = match b.text_view.node_id {
                    Some(h) => h < n,
                    None => false,
                };
                own && label
            },
            Widget::Rect(r) => match r.node_id {
                Some(h) => h < n,
                None => false,
            },
            Widget::Circle(c) => match c.node_id {
                Some(h) => h < n,
                None => false,
            },
            Widget::RoundedRect(r) => match r.node_id {
                Some(h) => h < n,
                None => false,
            },
        }
    }
}

impl Widget {
    /// One frame's work on the tree: empties the queue, runs the prepare
    /// pass from the root geometry, then collects the text areas. The queue
    /// then holds exactly this frame's primitives, as far as they fit.
    pub fn frame(&mut self, ctx: &mut RenderContext, layout: &LayoutContext, root: Geometry) -> (areas:
        Vec<TextArea>)
        requires
            laid_out(*old(self), *layout),
        ensures
            prepared(*old(self), *final(self)),
            laid_out(*final(self), *layout),
            final(ctx).debug == old(ctx).debug,
            final(ctx).render_queue.wf(),
            final(ctx).render_queue.primitives() == kept_after(
                Seq::empty(),
                prims_of(*old(self), *layout, root, old(ctx).debug),
            ),
            final(ctx).shape_requests@ == old(ctx).shape_requests@ + requests_of(
                *old(self),
                *layout,
                root,
            ),
            areas@ == areas_of(*final(self), *layout, root),
    {
        ctx.begin_frame();
        self.prepare(ctx, layout, root);
        let mut areas: Vec<TextArea> = Vec::new();
        self.collect_text_areas(layout, root, &mut areas);
        assert(areas@ =~= areas_of(*self, *layout, root));
        areas
    }
}

// ---------------------------------------------------------------------------
// Laws.

/// A press inside a button, the click synthesized with it, and a release
/// anywhere leave the button released, after exactly one report of its
/// action: the one made by the click.
pub proof fn law_press_then_release(
    b0: Button,
    b1: Button,
    b2: Button,
    b3: Button,
    g: Geometry,
    px: i32,
    py: i32,
    rx: i32,
    ry: i32,
)
    requires
        g.spec_contains(px as int, py as int),
        button_evented(b0, b1, Event::MouseDown { x: px, y: py }, g),
        button_evented(b1, b2, Event::MouseClick { x: px, y: py }, g),
        button_evented(b2, b3, Event::MouseUp { x: rx, y: ry }, g),
    ensures
        b1.is_pressed(),
        !b3.is_pressed(),
        button_clicks(b0, Event::MouseDown { x: px, y: py }, g) + button_clicks(
            b1,
            Event::MouseClick { x: px, y: py },
            g,
        ) + button_clicks(b2, Event::MouseUp { x: rx, y: ry }, g) == seq![b0.action()],
{
    assert(button_clicks(b0, Event::MouseDown { x: px, y: py }, g) + button_clicks(
        b1,
        Event::MouseClick { x: px, y: py },
        g,
    ) + button_clicks(b2, Event::MouseUp { x: rx, y: ry }, g) =~= seq![b0.action()]);
}

/// Preparing a text twice with unchanged content asks for at most one
/// shaping: the first prepare may ask, the second never does.
pub proof fn law_text_shapes_once(
    t0: Text,
    t1: Text,
    layout: LayoutContext,
    first: Geometry,
    second: Geometry,
)
    requires
        text_prepared(t0, t1),
    ensures
        text_requests(t0, layout, first).len() <= 1,
        text_requests(t1, layout, second).len() == 0,
{
}

/// After a prepare, changing the text's content makes the next prepare ask
/// for exactly one shaping.
pub proof fn law_text_reshapes_on_change(
    t0: Text,
    t1: Text,
    t2: Text,
    layout: LayoutContext,
    parent: Geometry,
)
    requires
        text_prepared(t0, t1),
        t2.shaped() == t1.shaped(),
        t2.content()@ != t1.content()@,
    ensures
        text_requests(t2, layout, parent).len() == 1,
{
}

} // verus!

use vstd::prelude::*;

verus! {

/// The phase in which a mouse event is dispatched: capture runs from the root
/// down, bubble from the target up.
#[derive(Clone, Copy, Debug, PartialEq, Eq, Structural)]
pub enum DispatchPhase {
    Capture,
    Bubble,
}

/// Whether an element is pressed, through its group or itself.
#[derive(Clone, Copy, Debug, PartialEq, Eq, Structural)]
pub struct ActiveState {
    pub group: bool,
    pub element: bool,
}

impl Default for ActiveState {
    fn default() -> (r: ActiveState)
        ensures
            !r.group && !r.element,
    {
        ActiveState { group: false, element: false }
    }
}

impl ActiveState {
    pub fn is_none(&self) -> (r: bool)
        ensures
            r == (!self.group && !self.element),
    {
        !self.group && !self.element
    }

    /// A mouse press, with whether it fell inside the element's group and
    /// inside the element. An element that is not pressed becomes pressed, in
    /// the bubble phase, where the press hit it or its group; the result says
    /// whether the state changed and the view must be redrawn.
    pub fn mouse_down(&mut self, phase: DispatchPhase, group_hit: bool, element_hit: bool) -> (r: bool)
        ensures
            r == (!old(self).group && !old(self).element && phase == DispatchPhase::Bubble
                && (group_hit || element_hit)),
            r ==> *final(self) == (ActiveState { group: group_hit, element: element_hit }),
            !r ==> *final(self) == *old(self),
    {
        if self.is_none() && phase == DispatchPhase::Bubble && (group_hit || element_hit) {
            *self = ActiveState { group: group_hit, element: element_hit };
            true
        } else {
            false
        }
    }

    /// A mouse release: a pressed element is released in the capture phase;
    /// the result says whether the state changed.
    pub fn mouse_up(&mut self, phase: DispatchPhase) -> (r: bool)
        ensures
            r == ((old(self).group || old(self).element) && phase == DispatchPhase::Capture),
            r ==> !final(self).group && !final(self).element,
            !r ==> *final(self) == *old(self),
    {
        if !self.is_none() && phase == DispatchPhase::Capture {
            *self = ActiveState::default();
            true
        } else {
            false
        }
    }
}

/// The bounds of `entries` pushed under `name`, oldest first.
pub open spec fn stack_of<B>(entries: Seq<(Seq<char>, B)>, name: Seq<char>) -> Seq<B>
    decreases entries.len(),
{
    if entries.len() == 0 {
        Seq::empty()
    } else if entries.last().0 == name {
        stack_of(entries.drop_last(), name).push(entries.last().1)
    } else {
        stack_of(entries.drop_last(), name)
    }
}

proof fn lemma_stack_of_concat<B>(a: Seq<(Seq<char>, B)>, b: Seq<(Seq<char>, B)>, name: Seq<char>)
    ensures
        stack_of(a + b, name) == stack_of(a, name) + stack_of(b, name),
    decreases b.len(),
{
    if b.len() == 0 {
        assert(a + b =~= a);
        assert(stack_of(a, name) + stack_of(b, name) =~= stack_of(a, name));
    } else {
        lemma_stack_of_concat(a, b.drop_last(), name);
        assert((a + b).drop_last() =~= a + b.drop_last());
        assert(stack_of(a, name) + stack_of(b.drop_last(), name).push(b.last().1)
            =~= (stack_of(a, name) + stack_of(b.drop_last(), name)).push(b.last().1));
    }
}

/// The bounds that painted groups have pushed, by group name: while an element
/// of group `g` paints, the innermost bounds of `g` are on top of its stack.
pub struct GroupBounds<B> {
    entries: Vec<(String, B)>,
}

impl<B: Copy> GroupBounds<B> {
    /// The stack of bounds under `name`, oldest first.
    pub closed spec fn stack(&self, name: Seq<char>) -> Seq<B> {
        stack_of(self.entries@.map_values(|e: (String, B)| (e.0@, e.1)), name)
    }

    pub fn new() -> (r: GroupBounds<B>)
        ensures
            forall|n: Seq<char>| #[trigger] r.stack(n).len() == 0,
    {
        let r = GroupBounds { entries: Vec::new() };
        assert forall|n: Seq<char>| #[trigger] r.stack(n).len() == 0 by {
            assert(r.entries@.map_values(|e: (String, B)| (e.0@, e.1)).len() == 0);
        }
        r
    }

    /// Pushes `bounds` on the stack of group `name`.
    pub fn push(&mut self, name: String, bounds: B)
        ensures
            final(self).stack(name@) == old(self).stack(name@).push(bounds),
            forall|n: Seq<char>| n != name@ ==> #[trigger] final(self).stack(n) == old(self).stack(n),
    {
        let ghost key = name@;
        self.entries.push((name, bounds));
        assert(self.entries@.map_values(|e: (String, B)| (e.0@, e.1)).drop_last()
            =~= old(self).entries@.map_values(|e: (String, B)| (e.0@, e.1)));
        assert(self.entries@.map_values(|e: (String, B)| (e.0@, e.1)).last() == (key, bounds));
    }

    /// The index of the last entry of `name`, if any; the entries after it
    /// are of other groups.
    fn find_last(&self, name: &String) -> (r: Option<usize>)
        ensures
            match r {
                Some(i) => {
                    &&& i < self.entries@.len()
                    &&& self.entries@[i as int].0@ == name@
                    &&& forall|j: int| i < j < self.entries@.len() ==> (#[trigger] self.entries@[j]).0@ != name@
                },
                None => forall|j: int| 0 <= j < self.entries@.len() ==> (#[trigger] self.entries@[j]).0@ != name@,
            },
    {
        let mut i: usize = self.entries.len();
        while i > 0
            invariant
                i <= self.entries@.len(),
                forall|j: int| i <= j < self.entries@.len() ==> (#[trigger] self.entries@[j]).0@ != name@,
            decreases i,
        {
            if self.entries[i - 1].0 == *name {
                return Some(i - 1);
            }
            i = i - 1;
        }
        None
    }

    /// Pops the top of the stack of group `name`, if it has one.
    pub fn pop(&mut self, name: &String)
        ensures
            final(self).stack(name@) == if old(self).stack(name@).len() == 0 {
                old(self).stack(name@)
            } else {
                old(self).stack(name@).drop_last()
            },
            forall|n: Seq<char>| n != name@ ==> #[trigger] final(self).stack(n) == old(self).stack(n),
    {
        let ghost es = self.entries@.map_values(|e: (String, B)| (e.0@, e.1));
        match self.find_last(name) {
            None => {
                proof {
                    lemma_stack_of_absent(es, name@);
                }
            },
            Some(i) => {
                self.entries.remove(i);
                proof {
                    let es2 = self.entries@.map_values(|e: (String, B)| (e.0@, e.1));
                    let a = es.take(i as int);
                    let mid = es.subrange(i as int, i as int + 1);
                    let b = es.skip(i as int + 1);
                    assert(es.len() == old(self).entries@.len());
                    assert(mid.len() == 1 && mid[0] == es[i as int] && mid.last() == mid[0]);
                    assert(es[i as int] == (old(self).entries@[i as int].0@, old(self).entries@[i as int].1));
                    assert(mid[0].0 == name@);
                    assert(es =~= a + mid + b);
                    assert(es2 =~= a + b);
                    assert(mid.drop_last() =~= Seq::<(Seq<char>, B)>::empty());
                    assert(stack_of(mid.drop_last(), name@) =~= Seq::<B>::empty());
                    assert(stack_of(mid, name@) =~= seq![mid[0].1]);
                    assert forall|j: int| 0 <= j < b.len() implies (#[trigger] b[j]).0 != name@ by {
                        assert(b[j] == es[i + 1 + j]);
                    }
                    lemma_stack_of_absent(b, name@);
                    lemma_stack_of_concat(a + mid, b, name@);
                    lemma_stack_of_concat(a, mid, name@);
                    lemma_stack_of_concat(a, b, name@);
                    assert forall|n: Seq<char>| n != name@ implies #[trigger] stack_of(es2, n) == stack_of(es, n) by {
                        lemma_stack_of_concat(a + mid, b, n);
                        lemma_stack_of_concat(a, mid, n);
                        lemma_stack_of_concat(a, b, n);
                        assert(stack_of(mid.drop_last(), n) =~= Seq::<B>::empty());
                        assert(stack_of(mid, n) =~= Seq::<B>::empty());
                        assert(stack_of(a, n) + Seq::<B>::empty() =~= stack_of(a, n));
                    }
                    assert(stack_of(b, name@) =~= Seq::<B>::empty());
                    assert(stack_of(a, name@) + seq![mid[0].1] =~= stack_of(a, name@).push(mid[0].1));
                    assert(stack_of(es, name@) =~= stack_of(a, name@).push(mid[0].1));
                    assert(stack_of(es2, name@) =~= stack_of(a, name@));
                    assert(stack_of(es, name@).drop_last() =~= stack_of(a, name@));
                }
            },
        }
    }

    /// The innermost bounds of group `name`, if it has any.
    pub fn top(&self, name: &String) -> (r: Option<B>)
        ensures
            r == if self.stack(name@).len() == 0 {
                None
            } else {
                Some(self.stack(name@).last())
            },
    {
        let ghost es = self.entries@.map_values(|e: (String, B)| (e.0@, e.1));
        match self.find_last(name) {
            None => {
                proof {
                    lemma_stack_of_absent(es, name@);
                }
                None
            },
            Some(i) => {
                proof {
                    let a = es.take(i as int + 1);
                    let b = es.skip(i as int + 1);
                    assert(es =~= a + b);
                    assert forall|j: int| 0 <= j < b.len() implies (#[trigger] b[j]).0 != name@ by {
                        assert(b[j] == es[i + 1 + j]);
                    }
                    lemma_stack_of_absent(b, name@);
                    lemma_stack_of_concat(a, b, name@);
                    assert(stack_of(a, name@) + Seq::<B>::empty() =~= stack_of(a, name@));
                    assert(a.last() == es[i as int]);
                }
                Some(self.entries[i].1)
            },
        }
    }
}

proof fn lemma_stack_of_absent<B>(es: Seq<(Seq<char>, B)>, name: Seq<char>)
    requires
        forall|j: int| 0 <= j < es.len() ==> (#[trigger] es[j]).0 != name,
    ensures
        stack_of(es, name) == Seq::<B>::empty(),
    decreases es.len(),
{
    if es.len() > 0 {
        assert(es.last() == es[es.len() - 1]);
        lemma_stack_of_absent(es.drop_last(), name);
    }
}

/// The innermost bounds of group `name` among those that painting groups have
/// pushed, if it has any.
pub fn group_bounds<B: Copy>(name: &String, groups: &GroupBounds<B>) -> (r: Option<B>)
    ensures
        r == if groups.stack(name@).len() == 0 {
            None
        } else {
            Some(groups.stack(name@).last())
        },
{
    groups.top(name)
}

/// A listener on mouse moves over `bounds`, which knows whether the mouse was
/// inside them when the element was painted.
#[derive(Debug)]
pub struct HoverListener<B> {
    pub bounds: B,
    pub hovered: bool,
}

impl<B> HoverListener<B> {
    /// A mouse move, with whether it is inside the bounds: the view must be
    /// redrawn, in the capture phase, when that differs from what was painted.
    pub fn should_notify(&self, phase: DispatchPhase, inside: bool) -> (r: bool)
        ensures
            r == (phase == DispatchPhase::Capture && inside != self.hovered),
    {
        phase == DispatchPhase::Capture && inside != self.hovered
    }
}

/// The hover listener that painting an element with `bounds` registers, given
/// whether the mouse is inside them now.
pub fn paint_hover_listener<B>(bounds: B, hovered: bool) -> (r: HoverListener<B>)
    ensures
        r.bounds == bounds,
        r.hovered == hovered,
{
    HoverListener { bounds, hovered }
}

/// How content that overflows an element's bounds is shown.
#[derive(Clone, Copy, Debug, PartialEq, Eq, Structural)]
pub enum Overflow {
    Visible,
    Hidden,
    Scroll,
}

/// The style properties that elements set: a stacking order, and the overflow
/// along each axis.
#[derive(Clone, Copy, Debug, PartialEq, Eq, Structural)]
pub struct Style {
    pub z_index: Option<u32>,
    pub overflow_x: Overflow,
    pub overflow_y: Overflow,
}

/// A partial style: the properties it sets, each over whatever was there.
#[derive(Clone, Copy, Debug, PartialEq, Eq, Structural)]
pub struct StyleRefinement {
    pub z_index: Option<u32>,
    pub overflow_x: Option<Overflow>,
    pub overflow_y: Option<Overflow>,
}

pub open spec fn override_with<T>(base: T, r: Option<T>) -> T {
    match r {
        Some(v) => v,
        None => base,
    }
}

/// `s` with every property that `r` sets replaced by `r`'s value.
pub open spec fn refined(s: Style, r: StyleRefinement) -> Style {
    Style {
        z_index: match r.z_index {
            Some(z) => Some(z),
            None => s.z_index,
        },
        overflow_x: override_with(s.overflow_x, r.overflow_x),
        overflow_y: override_with(s.overflow_y, r.overflow_y),
    }
}

impl Style {
    /// No stacking order, content visible along both axes.
    pub fn new() -> (r: Style)
        ensures
            r == (Style { z_index: None, overflow_x: Overflow::Visible, overflow_y: Overflow::Visible }),
    {
        Style { z_index: None, overflow_x: Overflow::Visible, overflow_y: Overflow::Visible }
    }

    pub fn refine(&mut self, r: &StyleRefinement)
        ensures
            *final(self) == refined(*old(self), *r),
    {
        if let Some(z) = r.z_index {
            self.z_index = Some(z);
        }
        if let Some(o) = r.overflow_x {
            self.overflow_x = o;
        }
        if let Some(o) = r.overflow_y {
            self.overflow_y = o;
        }
    }
}

impl StyleRefinement {
    /// A refinement that sets nothing.
    pub fn new() -> (r: StyleRefinement)
        ensures
            r.z_index.is_none() && r.overflow_x.is_none() && r.overflow_y.is_none(),
    {
        StyleRefinement { z_index: None, overflow_x: None, overflow_y: None }
    }

    /// Whether the refinement sets any property.
    pub fn is_some(&self) -> (r: bool)
        ensures
            r == (self.z_index.is_some() || self.overflow_x.is_some() || self.overflow_y.is_some()),
    {
        self.z_index.is_some() || self.overflow_x.is_some() || self.overflow_y.is_some()
    }
}

/// A refinement that applies while the mouse is over, or presses, any element
/// of group `group`.
#[derive(Debug)]
pub struct GroupStyle {
    pub group: String,
    pub style: StyleRefinement,
}

/// An element that lays out its children: its id, its group, its base style,
/// and the styles it takes on hover and on press, of its own or through a
/// group.
#[derive(Debug)]
pub struct Div {
    pub element_id: Option<String>,
    pub group: Option<String>,
    pub base_style: StyleRefinement,
    pub hover_style: StyleRefinement,
    pub group_hover: Option<GroupStyle>,
    pub active_style: StyleRefinement,
    pub group_active: Option<GroupStyle>,
}

pub open spec fn no_refinement() -> StyleRefinement {
    StyleRefinement { z_index: None, overflow_x: None, overflow_y: None }
}

/// The style of `d`: its base style, then its group hover style when
/// `group_hovered` (the mouse is inside the bounds of that group), its hover
/// style when `hovered`, its group active style when its group is pressed and
/// its active style when it is pressed itself.
pub open spec fn style_of(d: Div, group_hovered: bool, hovered: bool, active: ActiveState) -> Style {
    let s0 = refined(Style { z_index: None, overflow_x: Overflow::Visible, overflow_y: Overflow::Visible }, d.base_style);
    let s1 = if group_hovered && d.group_hover.is_some() { refined(s0, d.group_hover.unwrap().style) } else { s0 };
    let s2 = if hovered { refined(s1, d.hover_style) } else { s1 };
    let s3 = if active.group && d.group_active.is_some() { refined(s2, d.group_active.unwrap().style) } else { s2 };
    if active.element { refined(s3, d.active_style) } else { s3 }
}

/// A div with no id, no group and no styles.
pub fn div() -> (r: Div)
    ensures
        r.element_id.is_none(),
        r.group.is_none(),
        r.base_style == no_refinement(),
        r.hover_style == no_refinement(),
        r.group_hover.is_none(),
        r.active_style == no_refinement(),
        r.group_active.is_none(),
{
    Div {
        element_id: None,
        group: None,
        base_style: StyleRefinement::new(),
        hover_style: StyleRefinement::new(),
        group_hover: None,
        active_style: StyleRefinement::new(),
        group_active: None,
    }
}

impl Div {
    /// The same div, identified by `id`.
    pub fn id(self, id: String) -> (r: Div)
        ensures
            r == (Div { element_id: Some(id), ..self }),
    {
        Div { element_id: Some(id), ..self }
    }

    /// The same div, as a member of group `group`.
    pub fn group(self, group: String) -> (r: Div)
        ensures
            r == (Div { group: Some(group), ..self }),
    {
        Div { group: Some(group), ..self }
    }

    pub fn z_index(self, z_index: u32) -> (r: Div)
        ensures
            r == (Div { base_style: StyleRefinement { z_index: Some(z_index), ..self.base_style }, ..self }),
    {
        let mut d = self;
        d.base_style.z_index = Some(z_index);
        d
    }

    pub fn overflow_hidden(self) -> (r: Div)
        ensures
            r == (Div {
                base_style: StyleRefinement {
                    overflow_x: Some(Overflow::Hidden),
                    overflow_y: Some(Overflow::Hidden),
                    ..self.base_style
                },
                ..self
            }),
    {
        let mut d = self;
        d.base_style.overflow_x = Some(Overflow::Hidden);
        d.base_style.overflow_y = Some(Overflow::Hidden);
        d
    }

    pub fn overflow_hidden_x(self) -> (r: Div)
        ensures
            r == (Div { base_style: StyleRefinement { overflow_x: Some(Overflow::Hidden), ..self.base_style }, ..self }),
    {
        let mut d = self;
        d.base_style.overflow_x = Some(Overflow::Hidden);
        d
    }

    pub fn overflow_hidden_y(self) -> (r: Div)
        ensures
            r == (Div { base_style: StyleRefinement { overflow_y: Some(Overflow::Hidden), ..self.base_style }, ..self }),
    {
        let mut d = self;
        d.base_style.overflow_y = Some(Overflow::Hidden);
        d
    }

    pub fn overflow_scroll(self) -> (r: Div)
        ensures
            r == (Div {
                base_style: StyleRefinement {
                    overflow_x: Some(Overflow::Scroll),
                    overflow_y: Some(Overflow::Scroll),
                    ..self.base_style
                },
                ..self
            }),
    {
        let mut d = self;
        d.base_style.overflow_x = Some(Overflow::Scroll);
        d.base_style.overflow_y = Some(Overflow::Scroll);
        d
    }

    pub fn overflow_x_scroll(self) -> (r: Div)
        ensures
            r == (Div { base_style: StyleRefinement { overflow_x: Some(Overflow::Scroll), ..self.base_style }, ..self }),
    {
        let mut d = self;
        d.base_style.overflow_x = Some(Overflow::Scroll);
        d
    }

    pub fn overflow_y_scroll(self) -> (r: Div)
        ensures
            r == (Div { base_style: StyleRefinement { overflow_y: Some(Overflow::Scroll), ..self.base_style }, ..self }),
    {
        let mut d = self;
        d.base_style.overflow_y = Some(Overflow::Scroll);
        d
    }

    /// Sets the hover style: of group `group` when one is named, else of the
    /// div itself.
    pub fn set_hover_style(&mut self, group: Option<String>, style: StyleRefinement)
        ensures
            *final(self) == match group {
                Some(g) => Div { group_hover: Some(GroupStyle { group: g, style }), ..*old(self) },
                None => Div { hover_style: style, ..*old(self) },
            },
    {
        match group {
            Some(g) => self.group_hover = Some(GroupStyle { group: g, style }),
            None => self.hover_style = style,
        }
    }

    /// Sets the active style: of group `group` when one is named, else of the
    /// div itself.
    pub fn set_active_style(&mut self, group: Option<String>, style: StyleRefinement)
        ensures
            *final(self) == match group {
                Some(g) => Div { group_active: Some(GroupStyle { group: g, style }), ..*old(self) },
                None => Div { active_style: style, ..*old(self) },
            },
    {
        match group {
            Some(g) => self.group_active = Some(GroupStyle { group: g, style }),
            None => self.active_style = style,
        }
    }

    /// The div's style, given whether the mouse is inside the bounds of its
    /// hover group (`group_hovered`) and of the div (`hovered`), and whether
    /// it or its group is pressed.
    pub fn compute_style(&self, group_hovered: bool, hovered: bool, active: ActiveState) -> (r: Style)
        ensures
            r == style_of(*self, group_hovered, hovered, active),
    {
        let mut computed_style = Style::new();
        computed_style.refine(&self.base_style);
        if group_hovered {
            if let Some(group_hover) = &self.group_hover {
                computed_style.refine(&group_hover.style);
            }
        }
        if hovered {
            computed_style.refine(&self.hover_style);
        }
        if active.group {
            if let Some(group_active) = &self.group_active {
                computed_style.refine(&group_active.style);
            }
        }
        if active.element {
            computed_style.refine(&self.active_style);
        }
        computed_style
    }

    /// The hover listeners that painting the div registers: one on its hover
    /// group's bounds when that group has bounds, then one on its own bounds
    /// when it has a hover style. `group_hovered` and `hovered` say whether
    /// the mouse is inside each now.
    pub fn paint_hover_listeners<B: Copy>(
        &self,
        bounds: B,
        hovered: bool,
        group_bounds: Option<B>,
        group_hovered: bool,
    ) -> (r: Vec<HoverListener<B>>)
        ensures
            r@.len() == (if group_bounds.is_some() { 1int } else { 0 }) + (if self.hover_style != no_refinement() { 1int } else { 0 }),
            group_bounds.is_some() ==> r@[0].bounds == group_bounds.unwrap() && r@[0].hovered == group_hovered,
            self.hover_style != no_refinement() ==> r@.last().bounds == bounds && r@.last().hovered == hovered,
    {
        let mut r: Vec<HoverListener<B>> = Vec::new();
        if let Some(g) = group_bounds {
            r.push(paint_hover_listener(g, group_hovered));
        }
        if self.hover_style.is_some() {
            r.push(paint_hover_listener(bounds, hovered));
        }
        r
    }
}

} // verus!

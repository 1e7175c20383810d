//! Style values as the tree engine sees them: an opaque-to-the-core
//! computed style that is cached and handed down through scopes, plus the
//! element/selector model used to pick style rules for a widget.
//!
//! Parsing CSS text into selectors and raw style values is a collaborator's
//! job; the engine only matches already-parsed selectors and scales raw
//! values.

use vstd::prelude::*;

verus! {

/// Raw style values at 100% scale, as produced by the style collaborator.
#[derive(Debug, Clone, Copy, PartialEq, Eq, Structural)]
pub struct Style {
    pub font_size: i64,
    pub line_height: i64,
    pub padding: i64,
}

impl Style {
    pub open spec fn wf(self) -> bool {
        &&& 0 <= self.font_size <= 10000
        &&& 0 <= self.line_height <= 10000
        &&& 0 <= self.padding <= 10000
    }
}

/// Style values scaled to a window's scale factor, in percent. The engine
/// never interprets them beyond caching and handing them down; widgets
/// read them when computing size hints.
#[derive(Debug, Clone, Copy, PartialEq, Eq, Structural)]
pub struct ComputedStyle {
    pub base: Style,
    pub scale_percent: i64,
    pub font_size: i64,
    pub line_height: i64,
    pub padding: i64,
}

impl ComputedStyle {
    pub open spec fn wf(self) -> bool {
        &&& self.base.wf()
        &&& 1 <= self.scale_percent <= 10000
        &&& self.font_size == self.base.font_size * self.scale_percent / 100
        &&& self.line_height == self.base.line_height * self.scale_percent / 100
        &&& self.padding == self.base.padding * self.scale_percent / 100
    }

    /// Scale `style` to `scale_percent`, rounding down.
    pub fn new(style: Style, scale_percent: i64) -> (r: ComputedStyle)
        requires
            style.wf(),
            1 <= scale_percent <= 10000,
        ensures
            r.wf(),
            r.base == style,
            r.scale_percent == scale_percent,
    {
        assert(style.font_size * scale_percent <= 100000000) by (nonlinear_arith)
            requires
                0 <= style.font_size <= 10000,
                1 <= scale_percent <= 10000,
        ;
        assert(style.line_height * scale_percent <= 100000000) by (nonlinear_arith)
            requires
                0 <= style.line_height <= 10000,
                1 <= scale_percent <= 10000,
        ;
        assert(style.padding * scale_percent <= 100000000) by (nonlinear_arith)
            requires
                0 <= style.padding <= 10000,
                1 <= scale_percent <= 10000,
        ;
        assert(style.font_size * scale_percent >= 0) by (nonlinear_arith)
            requires
                0 <= style.font_size && 0 <= scale_percent,
        ;
        assert(style.line_height * scale_percent >= 0) by (nonlinear_arith)
            requires
                0 <= style.line_height && 0 <= scale_percent,
        ;
        assert(style.padding * scale_percent >= 0) by (nonlinear_arith)
            requires
                0 <= style.padding && 0 <= scale_percent,
        ;
        ComputedStyle {
            base: style,
            scale_percent,
            font_size: style.font_size * scale_percent / 100,
            line_height: style.line_height * scale_percent / 100,
            padding: style.padding * scale_percent / 100,
        }
    }
}

/// The bundled fallback style used for the root scope when the application
/// installs nothing else.
pub fn default_style() -> (r: Style)
    ensures
        r.wf(),
        r == (Style { font_size: 14i64, line_height: 17i64, padding: 10i64 }),
{
    Style { font_size: 14, line_height: 17, padding: 10 }
}

/// The cascading state a widget inherits from its ancestors: effective
/// visibility, effective enabledness and the style in force.
#[derive(Debug, Clone)]
pub struct WidgetScope {
    pub is_visible: bool,
    pub is_enabled: bool,
    pub style: std::rc::Rc<ComputedStyle>,
}

impl WidgetScope {
    /// The scope of a tree root: visible, enabled, default style.
    pub fn root(style: std::rc::Rc<ComputedStyle>) -> (r: WidgetScope)
        ensures
            r.is_visible,
            r.is_enabled,
            r.style == style,
    {
        WidgetScope { is_visible: true, is_enabled: true, style }
    }

    pub fn duplicate(&self) -> (r: WidgetScope)
        ensures
            r == *self,
    {
        WidgetScope {
            is_visible: self.is_visible,
            is_enabled: self.is_enabled,
            style: std::rc::Rc::clone(&self.style),
        }
    }
}

/// Pseudo-classes the engine understands when matching selectors.
#[derive(Debug, Clone, Copy, PartialEq, Eq, Hash, Structural)]
pub enum MyPseudoClass {
    Hover,
    Focus,
    Active,
    Enabled,
    Disabled,
    Min,
    Other,
}

/// One piece of an already-parsed selector.
#[derive(Debug, Clone)]
pub enum SelectorComponent {
    /// `.name`
    Class(String),
    /// a tag name such as `button`
    LocalName(String),
    /// `:hover` and friends
    PseudoClass(MyPseudoClass),
    /// anything the engine does not understand; such a selector never
    /// matches
    Unsupported,
}

/// An already-parsed selector: the conjunction of its components.
#[derive(Debug, Clone)]
pub struct Selector {
    pub components: Vec<SelectorComponent>,
}

/// What a widget presents to selector matching: its tag, its classes and
/// its active pseudo-classes. The collections have set semantics; order
/// and multiplicity never matter.
#[derive(Debug, Clone)]
pub struct Element {
    pub tag: String,
    pub classes: Vec<String>,
    pub pseudo_classes: Vec<MyPseudoClass>,
}

impl Element {
    pub open spec fn has_class(self, class: Seq<char>) -> bool {
        exists|i: int| 0 <= i < self.classes@.len() && self.classes@[i]@ == class
    }

    pub open spec fn has_pseudo_class(self, class: MyPseudoClass) -> bool {
        exists|i: int| 0 <= i < self.pseudo_classes@.len() && self.pseudo_classes@[i] == class
    }

    pub open spec fn component_matches(self, c: SelectorComponent) -> bool {
        match c {
            SelectorComponent::Class(name) => self.has_class(name@),
            SelectorComponent::LocalName(name) => self.tag@ == name@,
            SelectorComponent::PseudoClass(p) => self.has_pseudo_class(p),
            SelectorComponent::Unsupported => false,
        }
    }

    /// A selector matches when every one of its components does.
    pub open spec fn spec_matches(self, selector: Selector) -> bool {
        forall|i: int|
            0 <= i < selector.components@.len() ==> self.component_matches(
                #[trigger] selector.components@[i],
            )
    }

    pub fn new(tag: String) -> (r: Element)
        ensures
            r.tag == tag,
            r.classes@ =~= Seq::<String>::empty(),
            r.pseudo_classes@ =~= Seq::<MyPseudoClass>::empty(),
    {
        Element { tag, classes: Vec::new(), pseudo_classes: Vec::new() }
    }

    pub fn with_class(self, class: String) -> (r: Element)
        ensures
            r.tag == self.tag,
            r.classes@ =~= self.classes@.push(class),
            r.pseudo_classes == self.pseudo_classes,
    {
        let mut this = self;
        this.classes.push(class);
        this
    }

    pub fn with_pseudo_class(self, class: MyPseudoClass) -> (r: Element)
        ensures
            r.tag == self.tag,
            r.classes == self.classes,
            r.pseudo_classes@ =~= self.pseudo_classes@.push(class),
    {
        let mut this = self;
        this.pseudo_classes.push(class);
        this
    }

    pub fn add_class(&mut self, class: String)
        ensures
            final(self).tag == old(self).tag,
            final(self).classes@ =~= old(self).classes@.push(class),
            final(self).pseudo_classes == old(self).pseudo_classes,
    {
        self.classes.push(class);
    }

    fn contains_class(&self, class: &String) -> (r: bool)
        ensures
            r == self.has_class(class@),
    {
        let mut i: usize = 0;
        while i < self.classes.len()
            invariant
                0 <= i <= self.classes@.len(),
                forall|j: int| 0 <= j < i ==> self.classes@[j]@ != class@,
            decreases self.classes@.len() - i,
        {
            if self.classes[i].eq(class) {
                return true;
            }
            i = i + 1;
        }
        false
    }

    fn contains_pseudo_class(&self, class: MyPseudoClass) -> (r: bool)
        ensures
            r == self.has_pseudo_class(class),
    {
        let mut i: usize = 0;
        while i < self.pseudo_classes.len()
            invariant
                0 <= i <= self.pseudo_classes@.len(),
                forall|j: int| 0 <= j < i ==> self.pseudo_classes@[j] != class,
            decreases self.pseudo_classes@.len() - i,
        {
            if self.pseudo_classes[i] == class {
                return true;
            }
            i = i + 1;
        }
        false
    }

    /// Whether this element matches the selector: every component of the
    /// selector must hold of the element, and an unsupported component
    /// never holds.
    pub fn matches(&self, selector: &Selector) -> (r: bool)
        ensures
            r == self.spec_matches(*selector),
    {
        let mut i: usize = 0;
        while i < selector.components.len()
            invariant
                0 <= i <= selector.components@.len(),
                forall|j: int| 0 <= j < i ==> self.component_matches(#[trigger] selector.components@[j]),
            decreases selector.components@.len() - i,
        {
            let ok: bool = match &selector.components[i] {
                SelectorComponent::Class(name) => self.contains_class(name),
                SelectorComponent::LocalName(name) => self.tag.eq(name),
                SelectorComponent::PseudoClass(p) => self.contains_pseudo_class(*p),
                SelectorComponent::Unsupported => false,
            };
            if !ok {
                return false;
            }
            i = i + 1;
        }
        true
    }
}

} // verus!
